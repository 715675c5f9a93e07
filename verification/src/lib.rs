//! A verified core for a multi-user, content-addressed image store.
//!
//! Users authenticate with a password, receive a signed session token, and
//! may then upload, list, fetch and delete images that they own.  Images are
//! identified by a content digest of their bytes, so identical uploads by the
//! same owner deduplicate, while different owners keep separate records.
//!
//! The calls into outside crates (password hashing, token signing, content
//! digests, base64, image metadata parsing) stand behind small trusted
//! wrappers; everything around them is verified.

pub mod blob;
pub mod credentials;
pub mod encoding;
pub mod gps;
pub mod hashing;
pub mod service;
pub mod store;
pub mod token;
