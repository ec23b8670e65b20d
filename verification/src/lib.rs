pub mod commit_verify;
pub mod lnpbps;
