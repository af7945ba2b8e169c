//! Codec core for tagged, extensible CBOR documents: exact-length buffers,
//! non-empty collections, tagged envelopes, alternative-shape resolution,
//! keyed extensible records, and the module-identifier and manifest records
//! built from them.

pub mod error;
pub mod value;
pub mod fixed_bytes;
pub mod non_empty;
pub mod tagged;
pub mod record;
pub mod record_laws;
pub mod choice;
pub mod triples;
pub mod comid;
pub mod corim;
pub mod codec;
pub mod comid_codec;
pub mod triples_codec;
pub mod corim_codec;
