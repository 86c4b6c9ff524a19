//! Extracts Wi-Fi networks and certificate anchors from signed
//! configuration profiles.
//!
//! A profile is a signed-data container around a property list. The
//! modules follow its way through the library: `envelope` unwraps the
//! container, `reader` reads the content as a document tree (`document`),
//! `record` holds the record kinds and their parsers (with `encoding` for a
//! certificate's text form), `extract` reads every payload entry of a
//! document, `aggregate` splits the outcomes, and `profile` runs all of it.

pub mod aggregate;
pub mod document;
pub mod encoding;
pub mod envelope;
pub mod extract;
pub mod profile;
pub mod reader;
pub mod record;
