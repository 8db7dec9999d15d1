//! Verified core of a multipart file-writing sink for object stores.
//!
//! Records are accumulated into in-flight files composed of multipart
//! uploads.  A compound rolling policy decides when a file is closed in
//! favour of a new one.  On checkpoint the exact state of every in-flight
//! upload is projected into plain data so that, after a restart, another
//! worker can resume the same uploads and finalize them, with each output
//! file appearing in the destination exactly once.
//!
//! All store I/O is expressed as plain action values returned by the
//! verified state machine; an unverified driver performs them and feeds
//! the callbacks back in.

pub mod table;
pub mod rolling;
pub mod multipart;
pub mod names;
pub mod writer;
pub mod json;
pub mod actor;
pub mod recovery;
pub mod sink;
pub mod storage;
