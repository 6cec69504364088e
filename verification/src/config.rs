//! Analyzer configuration.
//!
//! Immutable once constructed and owned by the analyzer for the duration of a
//! run.  The approaching threshold is kept in parts per thousand (`800`
//! stands for 80%), so that size classification is exact integer arithmetic.

use vstd::prelude::*;

verus! {

/// A user-defined regex rule, matched line by line against the source text.
#[derive(Clone)]
pub struct CustomRule {
    pub name: String,
    pub pattern: String,
}

/// Mathematical view of a [`CustomRule`].
pub struct CustomRuleV {
    pub name: Seq<char>,
    pub pattern: Seq<char>,
}

impl DeepView for CustomRule {
    type V = CustomRuleV;

    open spec fn deep_view(&self) -> CustomRuleV {
        CustomRuleV { name: self.name@, pattern: self.pattern@ }
    }
}

/// The analyzer's configuration.
#[derive(Clone)]
pub struct SanctifyConfig {
    /// Path fragments the driver skips when walking a project.
    pub ignore_paths: Vec<String>,
    /// The rule families that run.
    pub enabled_rules: Vec<String>,
    /// Ledger entry size limit, in bytes.
    pub ledger_limit: usize,
    /// Approaching-limit threshold, in parts per thousand of the limit.
    pub approaching_threshold: u32,
    /// In strict mode, half the limit already exceeds.
    pub strict_mode: bool,
    /// User-defined regex rules.
    pub custom_rules: Vec<CustomRule>,
}

impl Default for SanctifyConfig {
    /// The stock configuration: skip build and VCS directories, run all five
    /// rule families, a 64000-byte limit approached at 80%, lenient mode, and
    /// the two built-in example rules (no raw `unsafe` blocks, no
    /// `std::mem::forget`).
    fn default() -> (r: SanctifyConfig)
        ensures
            r.ignore_paths.deep_view() == seq!["target"@, ".git"@],
            r.enabled_rules.deep_view() == seq![
                "auth_gaps"@,
                "panics"@,
                "arithmetic"@,
                "ledger_size"@,
                "events"@,
            ],
            r.ledger_limit == 64000,
            r.approaching_threshold == 800,
            r.strict_mode == false,
            r.custom_rules.deep_view().len() == 2,
            r.custom_rules.deep_view()[0].name == "no_unsafe_block"@,
            r.custom_rules.deep_view()[0].pattern == "unsafe\\s*\\{"@,
            r.custom_rules.deep_view()[1].name == "no_mem_forget"@,
            r.custom_rules.deep_view()[1].pattern == "std::mem::forget"@,
    {
        let mut ignore_paths: Vec<String> = Vec::new();
        ignore_paths.push(String::from_str("target"));
        ignore_paths.push(String::from_str(".git"));
        let mut enabled_rules: Vec<String> = Vec::new();
        enabled_rules.push(String::from_str("auth_gaps"));
        enabled_rules.push(String::from_str("panics"));
        enabled_rules.push(String::from_str("arithmetic"));
        enabled_rules.push(String::from_str("ledger_size"));
        enabled_rules.push(String::from_str("events"));
        let mut custom_rules: Vec<CustomRule> = Vec::new();
        custom_rules.push(
            CustomRule {
                name: String::from_str("no_unsafe_block"),
                pattern: String::from_str("unsafe\\s*\\{"),
            },
        );
        custom_rules.push(
            CustomRule {
                name: String::from_str("no_mem_forget"),
                pattern: String::from_str("std::mem::forget"),
            },
        );
        let r = SanctifyConfig {
            ignore_paths,
            enabled_rules,
            ledger_limit: 64000,
            approaching_threshold: 800,
            strict_mode: false,
            custom_rules,
        };
        proof {
            assert(r.ignore_paths.deep_view() =~= seq!["target"@, ".git"@]);
            assert(r.enabled_rules.deep_view() =~= seq![
                "auth_gaps"@,
                "panics"@,
                "arithmetic"@,
                "ledger_size"@,
                "events"@,
            ]);
        }
        r
    }
}

/// Produces the configuration written by the `init` command.
pub struct ConfigGenerator;

impl ConfigGenerator {
    /// The configuration that `init` writes to a fresh project: all five
    /// rule families, the stock limit and threshold, and the two built-in
    /// example rules.
    pub fn generate_default_config() -> (r: SanctifyConfig)
        ensures
            r.ignore_paths.deep_view() == seq!["target"@, ".git"@],
            r.enabled_rules.deep_view() == seq![
                "auth_gaps"@,
                "panics"@,
                "arithmetic"@,
                "ledger_size"@,
                "events"@,
            ],
            r.ledger_limit == 64000,
            r.approaching_threshold == 800,
            r.strict_mode == false,
            r.custom_rules.deep_view().len() == 2,
            r.custom_rules.deep_view()[0].name == "no_unsafe_block"@,
            r.custom_rules.deep_view()[0].pattern == "unsafe\\s*\\{"@,
            r.custom_rules.deep_view()[1].name == "no_mem_forget"@,
            r.custom_rules.deep_view()[1].pattern == "std::mem::forget"@,
    {
        let mut ignore_paths: Vec<String> = Vec::new();
        ignore_paths.push(String::from_str("target"));
        ignore_paths.push(String::from_str(".git"));
        let mut enabled_rules: Vec<String> = Vec::new();
        enabled_rules.push(String::from_str("auth_gaps"));
        enabled_rules.push(String::from_str("panics"));
        enabled_rules.push(String::from_str("arithmetic"));
        enabled_rules.push(String::from_str("ledger_size"));
        enabled_rules.push(String::from_str("events"));
        let mut custom_rules: Vec<CustomRule> = Vec::new();
        custom_rules.push(
            CustomRule {
                name: String::from_str("no_unsafe_block"),
                pattern: String::from_str("unsafe\\s*\\{"),
            },
        );
        custom_rules.push(
            CustomRule {
                name: String::from_str("no_mem_forget"),
                pattern: String::from_str("std::mem::forget"),
            },
        );
        let r = SanctifyConfig {
            ignore_paths,
            enabled_rules,
            ledger_limit: 64000,
            approaching_threshold: 800,
            strict_mode: false,
            custom_rules,
        };
        proof {
            assert(r.ignore_paths.deep_view() =~= seq!["target"@, ".git"@]);
            assert(r.enabled_rules.deep_view() =~= seq![
                "auth_gaps"@,
                "panics"@,
                "arithmetic"@,
                "ledger_size"@,
                "events"@,
            ]);
        }
        r
    }
}

} // verus!
