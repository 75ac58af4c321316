//! The engine's output unit: an immutable violation record with an
//! optional machine-applicable fix descriptor.

use vstd::prelude::*;

verus! {

/// Mathematical image of a violation.
pub ghost struct ViolationView {
    pub rule_name: Seq<char>,
    pub file_path: Seq<char>,
    pub line_number: int,
    pub function_name: Seq<char>,
    pub message: Seq<char>,
    pub severity: Seq<char>,
    pub fix_type: Option<Seq<char>>,
    pub fix_content: Option<Seq<char>>,
    pub fix_line: Option<int>,
}

/// One reported violation: rule, place, function, message, severity,
/// and an optional fix descriptor (kind, text, target line).
#[derive(Debug, PartialEq)]
pub struct LintViolation {
    pub rule_name: String,
    pub file_path: String,
    pub line_number: usize,
    pub function_name: String,
    pub message: String,
    pub severity: String,
    pub fix_type: Option<String>,
    pub fix_content: Option<String>,
    pub fix_line: Option<usize>,
}

impl View for LintViolation {
    type V = ViolationView;

    open spec fn view(&self) -> ViolationView {
        ViolationView {
            rule_name: self.rule_name@,
            file_path: self.file_path@,
            line_number: self.line_number as int,
            function_name: self.function_name@,
            message: self.message@,
            severity: self.severity@,
            fix_type: match self.fix_type {
                Some(t) => Some(t@),
                None => None,
            },
            fix_content: match self.fix_content {
                Some(t) => Some(t@),
                None => None,
            },
            fix_line: match self.fix_line {
                Some(l) => Some(l as int),
                None => None,
            },
        }
    }
}

/// The views of a list of violations.
pub open spec fn vio_views(v: Seq<LintViolation>) -> Seq<ViolationView> {
    Seq::new(v.len(), |i: int| v[i]@)
}

} // verus!
