pub mod digest;
pub mod laws;
pub mod lnpbp4;
pub mod modulus;
