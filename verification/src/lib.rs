//! Object ingestion and multipart upload core of an S3-compatible object store.
//!
//! The crate holds the decisions of the upload paths (chunking, digests,
//! checksum and quota validation, the object-version life cycle and the
//! multipart protocol) as functions from plain values to plain values, each
//! with a contract over a mathematical model of its arguments.
pub mod data;
pub mod text;
pub mod encoding;
pub mod digest;
pub mod error;
pub mod sorted;
pub mod version;
pub mod object;
pub mod chunker;
pub mod quota;
pub mod headers;
pub mod xml;
pub mod checksum;
pub mod block_writer;
pub mod cleanup;
pub mod put;
pub mod multipart;
pub mod parts_list;
pub mod part_numbers;
pub mod complete;
pub mod bucket_alias;
pub mod cors;
pub mod common_error;
pub mod admin_error;
pub mod k2v_error;
pub mod admin;
pub mod rpc;
