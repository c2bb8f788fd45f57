//! Near-duplicate image detection.
//!
//! An incoming image is decoded into a 64-bit perceptual fingerprint; a
//! partition-scoped index of previously accepted fingerprints answers
//! nearest-neighbour queries under the Hamming distance; a matching policy
//! decides, per image, whether to report a duplicate or record a new entry.

pub mod distance;
pub mod extract;
pub mod index;
pub mod policy;
