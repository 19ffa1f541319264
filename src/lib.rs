//! Tags sensor readings with the latest known GPS position.
//!
//! The library holds the logic of the data-fusion path: cleaning raw input
//! lines, decoding NMEA sentences into position fields, keeping the latest
//! known fix, and rendering the joined CSV records.
pub mod position;
pub mod record;
pub mod text;
