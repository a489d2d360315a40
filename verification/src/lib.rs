//! Expiration policies for code, decided at month precision.
//!
//! A policy names a warning month, an optional hard-expiry month and an
//! optional custom message. Evaluating it against the current month tells
//! whether the code is accepted silently, accepted with a warning, or refused.

pub mod arguments;
pub mod calendar;
pub mod date;
pub mod engine;
pub mod policy;
pub mod target;
pub mod text;

pub use arguments::{parse_arguments, ArgToken, RawArgument, SyntaxError};
pub use date::{format_date, parse_date, CalendarMonth, DateError};
pub use engine::{bestbefore, current_date, evaluate, Verdict};
pub use policy::{Policy, PolicyError};
pub use target::{item_name, TargetKind};
