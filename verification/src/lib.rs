//! A verified query-planning and SQL-generation engine for windowed,
//! aggregated reports.
//!
//! A declarative [`models::ReportRequest`] (column ids, a filter tree, an
//! ordering) is compiled against a [`models::Datasource`] catalog into a
//! structured SQL tree ([`query::SqlAst`]) by the [`planner::QueryPlanner`],
//! and the tree is serialized into a SQL string by the
//! [`query::SQLGenerator`].  Both steps carry full functional contracts:
//! planning is pinned to a spec-level plan of the same inputs, and
//! generation is pinned to a spec-level rendering of the tree.

pub mod models;
pub mod planner;
pub mod query;
pub mod service;
pub mod settings;
pub mod templates;
