//! The registered native procedures and their shared helpers.

pub mod num;

pub mod primitive;

pub mod utils;
