//! The typed findings that the detectors emit.
//!
//! Every finding is an immutable value record, created once by a detector and
//! never changed afterwards.  Each executable record has a mathematical view
//! (`...V`) over character sequences, which the detectors' contracts speak of.

use vstd::prelude::*;

verus! {

/// Severity of a ledger size warning.
#[derive(Clone, Copy, PartialEq, Eq, Structural, Debug)]
pub enum SizeWarningLevel {
    /// Estimated size reaches or exceeds the ledger entry limit.
    ExceedsLimit,
    /// Estimated size is approaching the limit.
    ApproachingLimit,
}

/// A persisted-layout type whose estimated size is at or near the limit.
pub struct SizeWarning {
    pub struct_name: String,
    pub estimated_size: usize,
    pub limit: usize,
    pub level: SizeWarningLevel,
}

/// Mathematical view of a [`SizeWarning`].
pub struct SizeWarningV {
    pub struct_name: Seq<char>,
    pub estimated_size: usize,
    pub limit: usize,
    pub level: SizeWarningLevel,
}

impl DeepView for SizeWarning {
    type V = SizeWarningV;

    open spec fn deep_view(&self) -> SizeWarningV {
        SizeWarningV {
            struct_name: self.struct_name@,
            estimated_size: self.estimated_size,
            limit: self.limit,
            level: self.level,
        }
    }
}

/// A `panic!`, `.unwrap()` or `.expect()` reachable inside a contract
/// function.
pub struct PanicIssue {
    pub function_name: String,
    /// One of `"panic!"`, `"unwrap"`, `"expect"`.
    pub issue_type: String,
    pub location: String,
}

/// Mathematical view of a [`PanicIssue`].
pub struct PanicIssueV {
    pub function_name: Seq<char>,
    pub issue_type: Seq<char>,
    pub location: Seq<char>,
}

impl DeepView for PanicIssue {
    type V = PanicIssueV;

    open spec fn deep_view(&self) -> PanicIssueV {
        PanicIssueV {
            function_name: self.function_name@,
            issue_type: self.issue_type@,
            location: self.location@,
        }
    }
}

/// An unchecked arithmetic operation that could overflow or underflow.
pub struct ArithmeticIssue {
    /// Contract function in which the operation was found.
    pub function_name: String,
    /// The operator: `"+"`, `"-"`, `"*"`, `"+="`, `"-="`, `"*="`.
    pub operation: String,
    /// Human-readable suggestion pointing to the safe alternative.
    pub suggestion: String,
    /// `"function_name:line"` context string.
    pub location: String,
}

/// Mathematical view of an [`ArithmeticIssue`].
pub struct ArithmeticIssueV {
    pub function_name: Seq<char>,
    pub operation: Seq<char>,
    pub suggestion: Seq<char>,
    pub location: Seq<char>,
}

impl DeepView for ArithmeticIssue {
    type V = ArithmeticIssueV;

    open spec fn deep_view(&self) -> ArithmeticIssueV {
        ArithmeticIssueV {
            function_name: self.function_name@,
            operation: self.operation@,
            suggestion: self.suggestion@,
            location: self.location@,
        }
    }
}

/// A potential storage key collision.
pub struct StorageCollisionIssue {
    pub key_value: String,
    pub key_type: String,
    pub location: String,
    pub message: String,
}

/// Mathematical view of a [`StorageCollisionIssue`].
pub struct StorageCollisionIssueV {
    pub key_value: Seq<char>,
    pub key_type: Seq<char>,
    pub location: Seq<char>,
    pub message: Seq<char>,
}

impl DeepView for StorageCollisionIssue {
    type V = StorageCollisionIssueV;

    open spec fn deep_view(&self) -> StorageCollisionIssueV {
        StorageCollisionIssueV {
            key_value: self.key_value@,
            key_type: self.key_type@,
            location: self.location@,
            message: self.message@,
        }
    }
}

/// A line matched by a user-defined custom rule.
pub struct CustomRuleMatch {
    pub rule_name: String,
    pub line: usize,
    pub snippet: String,
}

/// Mathematical view of a [`CustomRuleMatch`].
pub struct CustomRuleMatchV {
    pub rule_name: Seq<char>,
    pub line: usize,
    pub snippet: Seq<char>,
}

impl DeepView for CustomRuleMatch {
    type V = CustomRuleMatchV;

    open spec fn deep_view(&self) -> CustomRuleMatchV {
        CustomRuleMatchV { rule_name: self.rule_name@, line: self.line, snippet: self.snippet@ }
    }
}

/// Complexity metrics of one function.
pub struct FunctionMetrics {
    pub name: String,
    pub cyclomatic_complexity: u32,
    pub param_count: usize,
    pub max_nesting_depth: u32,
    pub loc: usize,
    pub warnings: Vec<String>,
}

/// Mathematical view of a [`FunctionMetrics`].
pub struct FunctionMetricsV {
    pub name: Seq<char>,
    pub cyclomatic_complexity: u32,
    pub param_count: usize,
    pub max_nesting_depth: u32,
    pub loc: usize,
    pub warnings: Seq<Seq<char>>,
}

impl DeepView for FunctionMetrics {
    type V = FunctionMetricsV;

    open spec fn deep_view(&self) -> FunctionMetricsV {
        FunctionMetricsV {
            name: self.name@,
            cyclomatic_complexity: self.cyclomatic_complexity,
            param_count: self.param_count,
            max_nesting_depth: self.max_nesting_depth,
            loc: self.loc,
            warnings: self.warnings.deep_view(),
        }
    }
}

/// Complexity metrics of one source file.
pub struct ContractMetrics {
    pub contract_path: String,
    pub dependency_count: usize,
    pub functions: Vec<FunctionMetrics>,
}

/// Mathematical view of a [`ContractMetrics`].
pub struct ContractMetricsV {
    pub contract_path: Seq<char>,
    pub dependency_count: usize,
    pub functions: Seq<FunctionMetricsV>,
}

impl DeepView for ContractMetrics {
    type V = ContractMetricsV;

    open spec fn deep_view(&self) -> ContractMetricsV {
        ContractMetricsV {
            contract_path: self.contract_path@,
            dependency_count: self.dependency_count,
            functions: self.functions.deep_view(),
        }
    }
}

/// Heuristic cost estimate of one public contract function.
pub struct GasEstimationReport {
    pub function_name: String,
    pub estimated_instructions: usize,
    pub estimated_memory_bytes: usize,
}

/// Mathematical view of a [`GasEstimationReport`].
pub struct GasEstimationReportV {
    pub function_name: Seq<char>,
    pub estimated_instructions: usize,
    pub estimated_memory_bytes: usize,
}

impl DeepView for GasEstimationReport {
    type V = GasEstimationReportV;

    open spec fn deep_view(&self) -> GasEstimationReportV {
        GasEstimationReportV {
            function_name: self.function_name@,
            estimated_instructions: self.estimated_instructions,
            estimated_memory_bytes: self.estimated_memory_bytes,
        }
    }
}

} // verus!
