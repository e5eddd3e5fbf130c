//! An event-filtering chain for a logging pipeline.
//!
//! Filters inspect log events one at a time and answer with a three-valued
//! [`filter::Response`]; a chain of filters combines those answers with a
//! short-circuit rule. Filters are selected at configuration time: a
//! configuration block is parsed into a [`config::FilterConfig`], whose
//! `kind` discriminator an external registry later resolves to a concrete
//! filter type, re-interpreting the residual configuration value.

pub mod config;
pub mod filter;
pub mod value;
