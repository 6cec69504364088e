//! Static-analysis library for ledger smart-contract source code.
//!
//! The analyzer consumes an already-parsed syntax tree (see [`ast`]) and runs
//! a set of independent detectors over it, each producing typed findings.
//! Alongside the analyzer live the pure arithmetic cores of the two example
//! contracts that the tool ships as analysis targets.

pub mod amm;
pub mod analyzer;
pub mod arith;
pub mod ast;
pub mod auth;
pub mod complexity;
pub mod config;
pub mod findings;
pub mod gas;
pub mod ledger;
pub mod panics;
pub mod rules;
pub mod storage_collision;
pub mod strutil;
pub mod token;

pub use analyzer::Analyzer;
pub use config::{ConfigGenerator, CustomRule, SanctifyConfig};
pub use findings::{
    ArithmeticIssue, ContractMetrics, CustomRuleMatch, FunctionMetrics, GasEstimationReport,
    PanicIssue, SizeWarning, SizeWarningLevel, StorageCollisionIssue,
};
