//! Input-processing and text-buffer core of a terminal text editor.
//!
//! Raw terminal bytes are buffered by [`reader::ByteStream`], decoded into
//! characters by [`reader::Decoder`] and resolved into [`editor::key::Key`]
//! events by [`reader::KeyStream`]. Lines of text are held as
//! [`editor::row::Row`] values, and [`editor::Editor`] keeps the cursor and
//! the viewport over them.

pub mod text;
pub mod error;
pub mod utils;
pub mod editor;
pub mod reader;
