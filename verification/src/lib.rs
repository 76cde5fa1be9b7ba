//! Strongly-typed decoding of routing-data records.
//!
//! A retrieval engine hands over raw, loosely-typed records and elements; this
//! crate turns them into validated, owned domain values and sequences the
//! engine's configure / start / pull / teardown protocol.
//!
//! - [`element`] decodes one raw element (addresses, AS-path, communities,
//!   text fields) into an [`element::Element`], all-or-nothing.
//! - [`aspath`] parses rendered AS-path text into path entries.
//! - [`stream`] is the stream lifecycle state machine: it decides, for every
//!   engine response, the next state and what a pull of the flat element
//!   sequence yields.

pub mod aspath;
pub mod element;
pub mod stream;
