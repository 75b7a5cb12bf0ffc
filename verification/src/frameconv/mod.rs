pub mod decode;
pub mod filetypes;
pub mod snappy;
