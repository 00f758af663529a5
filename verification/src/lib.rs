//! Decoding of a self-describing binary container of columnar event records.
//!
//! The container is read from a byte [`source::Source`]: its header and key
//! index give the top-level records ([`file_item::FileItem`]), a record holds a
//! [`tree::Tree`] of branches, each branch is decoded into a column of values,
//! and the columns are assembled row by row into [`event::Event`]s, as a
//! whole or one by one through a [`stream::EventStream`]. The schema
//! catalogue of a container ([`streamer::Registry`]) gives the layout by
//! which an object of any of its classes is decoded.

pub mod error;
pub mod number;
pub mod codec;
pub mod parsers;
pub mod text;
pub mod decompress;
pub mod source;
pub mod record;
pub mod file_item;
pub mod tree;
pub mod cursor;
pub mod container;
pub mod names;
pub mod streamer;
pub mod object;
pub mod catalogue;
pub mod track;
pub mod primary_vertex;
pub mod trigger_mask;
pub mod event;
pub mod zip;
pub mod stream;

