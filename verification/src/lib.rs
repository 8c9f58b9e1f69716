//! Schema-driven synthetic row generator.
//!
//! Given a declarative schema (a table name, an ordered field list and a
//! delimiter policy), the library produces fake tabular rows and the
//! decisions of a batch pipeline that streams them to a sink.  Row layout
//! (delimited or fixed-width with padding), batch accounting and the
//! multipart-upload bookkeeping are verified; the surrounding process
//! (argument handling, threads, network and file I/O) lives outside the
//! library and only feeds it plain values.

pub mod config;
pub mod generators;
pub mod logger;
pub mod multipart;
pub mod rng;
pub mod schema;
pub mod text;
pub mod util;
