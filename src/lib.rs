//! A terminal weather lookup: the decisions behind it, with their contracts.
//!
//! The temperature arrives as decimal text and is held exactly as a
//! [`decimal::Decimal`], which picks the report's icon; the measurements arrive
//! as printed with one fractional digit and are checked for that shape.
use vstd::prelude::*;

pub mod client;
pub mod config;
pub mod decimal;
pub mod report;
pub mod session;
pub mod style;
