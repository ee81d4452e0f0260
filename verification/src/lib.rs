//! Reversible keyed obfuscation of source files at rest.
//!
//! A packaged file is a fixed marker followed by the payload run through a
//! position-dependent byte transform. This is obfuscation against casual
//! reading, not confidentiality: anyone holding the marker and the key can
//! restore the payload.

pub mod commands;
pub mod config;
pub mod consistency;
pub mod crypto;
pub mod error;
pub mod file_handler;
pub mod hooks;
pub mod text;

pub use config::GuardConfig;
pub use crypto::{decode, encode, is_encrypted};
pub use error::{ExportError, GuardError};
pub use file_handler::{
    check_file_encrypted, decrypt_content, encrypt_content, encrypt_file, read_and_decrypt_file,
};
