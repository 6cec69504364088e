//! The analyzer facade.
//!
//! Holds the configuration and exposes one method per detector.  Every
//! detector is a pure, total function of the parsed tree (and, for the size
//! estimator, of the configuration), so a detector can neither fail nor carry
//! state between runs: the driver hands it a tree and receives a finding
//! list, and the same tree always yields the same findings.  A file the
//! front end cannot parse never reaches the detectors; the driver reports it
//! as an empty result.

use vstd::prelude::*;

use crate::arith::{file_arith_issues, scan_arithmetic_in_file};
use crate::ast::SourceFile;
use crate::auth::{file_auth_gaps, scan_auth_gaps_in_file};
use crate::config::{CustomRule, SanctifyConfig};
use crate::findings::{
    ArithmeticIssue, CustomRuleMatch, GasEstimationReport, PanicIssue, SizeWarning,
    StorageCollisionIssue,
};
use crate::gas::{estimate_gas_in_file, file_gas_reports};
use crate::ledger::{analyze_ledger_size_in_file, file_size_warnings};
use crate::panics::{file_panic_issues, scan_panics_in_file};
use crate::rules::{analyze_custom_rules_in_source, custom_rule_matches, lines_of};
use crate::storage_collision::{file_storage_collisions, scan_storage_collisions_in_file};

verus! {

/// Runs the detectors over parsed source trees under one configuration.
pub struct Analyzer {
    pub config: SanctifyConfig,
}

impl Analyzer {
    /// An analyzer holding the given configuration.
    pub fn new(config: SanctifyConfig) -> (r: Analyzer)
        ensures
            r.config == config,
    {
        Analyzer { config }
    }

    /// Names of public `impl` functions that mutate storage without any
    /// authorization call.
    pub fn scan_auth_gaps(&self, file: &SourceFile) -> (r: Vec<String>)
        ensures
            r.deep_view() == file_auth_gaps(*file),
    {
        scan_auth_gaps_in_file(file)
    }

    /// All `panic!`, `.unwrap()` and `.expect()` occurrences inside any
    /// function body, free or `impl`.
    pub fn scan_panics(&self, file: &SourceFile) -> (r: Vec<PanicIssue>)
        ensures
            r.deep_view() == file_panic_issues(*file),
    {
        scan_panics_in_file(file)
    }

    /// Unchecked arithmetic, one issue per distinct (function, operator)
    /// pair.
    pub fn scan_arithmetic_overflow(&self, file: &SourceFile) -> (r: Vec<ArithmeticIssue>)
        ensures
            r.deep_view() == file_arith_issues(*file),
    {
        scan_arithmetic_in_file(file)
    }

    /// Size warnings for persisted-layout types, classified against the
    /// configured limit, threshold and mode.
    pub fn analyze_ledger_size(&self, file: &SourceFile) -> (r: Vec<SizeWarning>)
        ensures
            r.deep_view() == file_size_warnings(
                *file,
                self.config.ledger_limit,
                self.config.approaching_threshold,
                self.config.strict_mode,
            ),
    {
        analyze_ledger_size_in_file(
            file,
            self.config.ledger_limit,
            self.config.approaching_threshold,
            self.config.strict_mode,
        )
    }

    /// Storage-key collisions: one issue per occurrence of every literal key
    /// value that occurs more than once.
    pub fn scan_storage_collisions(&self, file: &SourceFile) -> (r: Vec<StorageCollisionIssue>)
        ensures
            r.deep_view() == file_storage_collisions(*file),
    {
        scan_storage_collisions_in_file(file)
    }

    /// Heuristic gas estimates for every public `impl` function.
    pub fn scan_gas_estimation(&self, file: &SourceFile) -> (r: Vec<GasEstimationReport>)
        ensures
            r.deep_view() == file_gas_reports(*file),
    {
        estimate_gas_in_file(file)
    }

    /// Runs the given regex rules line by line over the source text.
    pub fn analyze_custom_rules(&self, source: &str, rules: &[CustomRule]) -> (r: Vec<
        CustomRuleMatch,
    >)
        ensures
            r.deep_view() == custom_rule_matches(rules.deep_view(), lines_of(source@)),
    {
        analyze_custom_rules_in_source(source, rules)
    }
}

/// Detectors are repeatable: a detector's output is a function of the parsed
/// tree alone (and, for the size estimator, of the configuration), so two
/// runs on identical input yield identical findings.  One lemma per
/// detector; each takes the two runs' results as its inputs.
pub proof fn lemma_auth_gaps_repeatable(a: Seq<Seq<char>>, b: Seq<Seq<char>>, file: SourceFile)
    requires
        a == file_auth_gaps(file),
        b == file_auth_gaps(file),
    ensures
        a == b,
{
}

/// See [`lemma_auth_gaps_repeatable`].
pub proof fn lemma_panics_repeatable(
    a: Seq<crate::findings::PanicIssueV>,
    b: Seq<crate::findings::PanicIssueV>,
    file: SourceFile,
)
    requires
        a == file_panic_issues(file),
        b == file_panic_issues(file),
    ensures
        a == b,
{
}

/// See [`lemma_auth_gaps_repeatable`].
pub proof fn lemma_arithmetic_repeatable(
    a: Seq<crate::findings::ArithmeticIssueV>,
    b: Seq<crate::findings::ArithmeticIssueV>,
    file: SourceFile,
)
    requires
        a == file_arith_issues(file),
        b == file_arith_issues(file),
    ensures
        a == b,
{
}

/// See [`lemma_auth_gaps_repeatable`].
pub proof fn lemma_ledger_size_repeatable(
    a: Seq<crate::findings::SizeWarningV>,
    b: Seq<crate::findings::SizeWarningV>,
    file: SourceFile,
    limit: usize,
    threshold_ppm: u32,
    strict: bool,
)
    requires
        a == file_size_warnings(file, limit, threshold_ppm, strict),
        b == file_size_warnings(file, limit, threshold_ppm, strict),
    ensures
        a == b,
{
}

/// See [`lemma_auth_gaps_repeatable`].
pub proof fn lemma_storage_collisions_repeatable(
    a: Seq<crate::findings::StorageCollisionIssueV>,
    b: Seq<crate::findings::StorageCollisionIssueV>,
    file: SourceFile,
)
    requires
        a == file_storage_collisions(file),
        b == file_storage_collisions(file),
    ensures
        a == b,
{
}

/// See [`lemma_auth_gaps_repeatable`].
pub proof fn lemma_gas_estimation_repeatable(
    a: Seq<crate::findings::GasEstimationReportV>,
    b: Seq<crate::findings::GasEstimationReportV>,
    file: SourceFile,
)
    requires
        a == file_gas_reports(file),
        b == file_gas_reports(file),
    ensures
        a == b,
{
}

/// See [`lemma_auth_gaps_repeatable`].
pub proof fn lemma_custom_rules_repeatable(
    a: Seq<crate::findings::CustomRuleMatchV>,
    b: Seq<crate::findings::CustomRuleMatchV>,
    rules: Seq<crate::config::CustomRuleV>,
    source: Seq<char>,
)
    requires
        a == custom_rule_matches(rules, lines_of(source)),
        b == custom_rule_matches(rules, lines_of(source)),
    ensures
        a == b,
{
}

} // verus!
