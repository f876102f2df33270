//! One-time authentication codes (HOTP and TOTP) and a small store of named secrets.

pub mod config;
pub mod hmac_sha1;
pub mod hotp;
pub mod mfa;
pub mod totp;
