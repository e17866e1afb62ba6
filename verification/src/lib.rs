//! A verified core for a file-ingestion pipeline.
//!
//! Files arrive as raw bytes together with a key naming them; configurable
//! rules decide how each file is interpreted and where its content goes.
//! Seven decoders normalise heterogeneous formats into one record shape,
//! a dispatcher routes bytes to the decoder for a declared type tag, a
//! resolver picks the most specific rule for a key, and an orchestrator
//! drives one processing attempt end to end while keeping a durable audit
//! trail of the outcome.

pub mod avro_parser;
pub mod csv_parser;
pub mod error;
pub mod excel_parser;
pub mod ingestion_service;
pub mod json_parser;
pub mod models;
pub mod notification;
pub mod parquet_parser;
pub mod parser_adapter;
pub mod ports;
pub mod rules;
pub mod strutil;
pub mod txt_parser;
pub mod value;
pub mod xml_parser;

pub use value::{JsonValue, ValueView};
