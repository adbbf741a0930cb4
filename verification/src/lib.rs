//! Typed data access over an embedded document store.
//!
//! The store hands out loosely typed values and takes statements; this library is what
//! lies between it and typed records:
//!
//! - [`page`]: the page of a listing, its size bound and its offset;
//! - [`value`]: the model of the store's dynamic values, with objects as maps from
//!   field names to values;
//! - [`ident`]: record identifiers and their texts;
//! - [`convert`]: decoding a dynamic value into an object, an array, a string, an
//!   integer or a boolean, and taking named fields off an object;
//! - [`store`]: the three roles a record type can hold (`Creatable`, `Patchable`,
//!   `Castable`), the statements that a get and a list call send, and the decoding of
//!   what the store answers to each of the five calls;
//! - [`person`]: the person records, their encodings and decodings, and the accessor
//!   bound to the table `person`;
//! - [`params`]: the arguments of the calls as the caller sends them;
//! - [`error`]: the failures all of these report;
//! - [`text`]: decimal notation.
//!
//! Sending a statement and receiving the answer is the caller's part. A call that
//! addresses one record takes the table and the bare local id, never the combined
//! `table:id` text; that text is what the store's answers are reported under.
//! Contracts are stated over the views of the types: sequences of characters for
//! strings, maps for objects.

pub mod convert;
pub mod error;
pub mod ident;
pub mod page;
pub mod params;
pub mod person;
pub mod store;
pub mod text;
pub mod value;
