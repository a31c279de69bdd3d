//! A second, struct-shaped validator API: each validator owns its input and
//! offers a boolean check beside a consuming transformation.

pub mod email;
pub mod ip4;
pub mod ip6;
pub mod length;
pub mod url;
