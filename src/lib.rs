//! Translation of a delimited table, one row at a time.
//!
//! The library holds the row schema of the table, the decisions of the
//! row-by-row translation run, the reading of the translation service's
//! reply, the request that is sent for each text, and the name of the
//! output file. Reading and writing files and talking to the network are
//! left to the program around it.

pub mod output;
pub mod record;
pub mod service;
pub mod session;

pub use output::output_path;
pub use record::{DecodeError, Record, RowView};
pub use service::{request_form, translation_text, JsonValue};
pub use session::{Action, Event, Session, PAUSE_MILLIS};
