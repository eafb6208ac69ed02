//! Turns event access-log lines into tab-separated rows.
//!
//! Each line holds request metadata and a JSON payload. The payload is decoded with one
//! of four schemas, chosen by an [`EventTypes`] selector, and projected into rows. Lines
//! that do not have the envelope's shape, and payloads that do not decode, give no output.
pub mod text;
pub mod envelope;
pub mod json;
pub mod ids;
pub mod events;
pub mod selector;
pub mod tsv;
pub mod pipeline;
pub mod laws;

pub use envelope::{LogLine, parse_envelope, unescape_body};
pub use events::{EventAggClick, EventAggResult, EventAggSearch, EventAggVisit};
pub use json::Json;
pub use ids::{uuid_from_text, uuid_to_text};
pub use pipeline::{render_payload, transform_line, transform_lines};
pub use selector::EventTypes;
pub use tsv::Tsv;
