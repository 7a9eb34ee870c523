//! Weekly agenda engine: activity records, the line-oriented agenda parser,
//! and the bucketing of activities into the seven days of a calendar week.

pub mod activity;
pub mod agenda;
pub mod calendar;
pub mod error;
pub mod parser;
pub mod priority;
pub mod record;
pub mod text;
pub mod time;

pub use crate::activity::Activity;
pub use crate::agenda::Agenda;
pub use crate::error::ParseError;
pub use crate::parser::{AgendaParser, Parser};
pub use crate::priority::Priority;
pub use crate::record::Record;
pub use crate::time::ZonedTime;
