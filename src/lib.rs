//! Canonical, separator-independent identity keys for filesystem entries
//! that live under a registered location root.
pub mod text;
pub mod error;
pub mod normalize;
pub mod key;
pub mod validator;
pub mod record;
pub mod laws;
