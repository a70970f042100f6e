//! A live-media relay, as a set of verified state machines.
//!
//! One producer uploads a continuous stream; the relay hands it to a media
//! engine, which encodes it into several output formats; any number of
//! consumers attach to any format at any time and receive the encoded output
//! from the next sync point on.
//!
//! This crate holds the decisions of such a relay: routing, the registry of
//! live streams, the lifecycle of the per-format branches of a stream, the
//! fan-out of samples to consumers, the sync gate of each consumer, and the
//! chunking of the upload. It performs no I/O and starts no thread. Every
//! operation is a step from a state and an event to the next state and, where
//! the media engine or a socket has to act, the action asked of the driver.
//!
//! The modules, leaves first:
//!
//! - [`sample`]: the unit of encoded output;
//! - [`sync_gate`]: the filter that makes a consumer start at a sync point;
//! - [`sink`], [`source`]: a sample port and the ingest port of the engine;
//! - [`chunk_reader`]: the cutting of the upload into chunks;
//! - [`broadcast`]: the fan-out of one sample port to its consumers;
//! - [`format`], [`graph_op`], [`pipe`]: the output formats, the operations
//!   that build and remove a branch, and the book of the shared graph;
//! - [`stream_view`], [`streams`], [`stream_laws`]: one live upload, as a
//!   mathematical value, as a data structure, and what holds of it;
//! - [`handler`]: routing and the registry of live streams.

pub mod sample;
pub mod sync_gate;
pub mod sink;
pub mod source;
pub mod chunk_reader;
pub mod broadcast;
pub mod format;
pub mod graph_op;
pub mod pipe;
pub mod stream_view;
pub mod streams;
pub mod stream_laws;
pub mod handler;
