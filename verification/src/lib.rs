//! Building blocks of an in-memory S3 object store: the object map with its
//! request rules, the byte stream that carries object bodies, and the rule by
//! which replicated answers are reconciled.

pub mod cli;
pub mod error;
pub mod fuzzing;
pub mod s3_btree;
pub mod s3_replication;
pub mod vec_byte_stream;
