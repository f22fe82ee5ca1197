//! Dependency license auditing: manifest-driven ecosystem detection,
//! workspace discovery, dependency aggregation, SPDX expression
//! evaluation, license risk classification and policy verdicts.

pub mod aggregate;
pub mod analyzer;
pub mod cli;
pub mod config;
pub mod detector;
pub mod json;
pub mod license;
pub mod models;
pub mod registry;
pub mod report;
pub mod text;
pub mod tomlread;
pub mod xmlread;
