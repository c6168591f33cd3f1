//! The operations themselves, on input that has been read into memory.

pub mod b64;
pub mod csv_convert;
pub mod gen_pass;
pub mod http_serve;
pub mod text;
