//! The shellcheck sensor: linter findings as signals.
//!
//! Running the linter is I/O and lives with the caller; the mapping from
//! its findings to the kernel's signal channels is pure and verified
//! here: per-severity counts, the total, and the issue density per line.

use vstd::prelude::*;

use crate::fixed::SCALE;
use crate::pressure::{key_error_count, key_info_count, key_style_count, key_warning_count};
use crate::signals::Signals;

verus! {

/// A single linter finding.
pub struct ShellcheckIssue {
    /// Line number (1-indexed).
    pub line: usize,
    /// Column number (1-indexed).
    pub column: usize,
    /// End line number.
    pub end_line: usize,
    /// End column number.
    pub end_column: usize,
    /// Severity level: `error`, `warning`, `info` or `style`.
    pub level: String,
    /// The linter's rule code.
    pub code: u32,
    /// Human-readable message.
    pub message: String,
}

/// The linter invocation settings: the binary to run and the shell
/// dialect to analyse for.  Running it is the caller's I/O; this type
/// carries the settings and owns the verified signal mapping.
pub struct ShellcheckSensor {
    pub shellcheck_path: String,
    pub shell: String,
}

/// The number of issues in the first `n` entries whose level reads `lv`.
pub open spec fn count_level(issues: Seq<ShellcheckIssue>, n: int, lv: Seq<char>) -> int
    decreases n,
{
    if n <= 0 {
        0
    } else {
        count_level(issues, n - 1, lv) + (if issues[n - 1].level@ == lv {
            1int
        } else {
            0int
        })
    }
}

impl ShellcheckSensor {
    /// The default settings: a binary named `shellcheck`, bash dialect.
    pub fn new() -> (s: ShellcheckSensor)
        ensures
            s.shellcheck_path@ == "shellcheck"@,
            s.shell@ == "bash"@,
    {
        ShellcheckSensor { shellcheck_path: "shellcheck".to_owned(), shell: "bash".to_owned() }
    }

    /// Use a specific linter binary.
    pub fn with_path(path: String) -> (s: ShellcheckSensor)
        ensures
            s.shellcheck_path@ == path@,
            s.shell@ == "bash"@,
    {
        ShellcheckSensor { shellcheck_path: path, shell: "bash".to_owned() }
    }

    /// Replace the shell dialect.
    pub fn with_shell(self, shell: String) -> (s: ShellcheckSensor)
        ensures
            s.shellcheck_path@ == self.shellcheck_path@,
            s.shell@ == shell@,
    {
        ShellcheckSensor { shellcheck_path: self.shellcheck_path, shell }
    }

    /// The sensor's name.
    pub fn name(&self) -> (n: &'static str)
        ensures
            n@ == "shellcheck"@,
    {
        "shellcheck"
    }

    /// The linter binary these settings name.
    pub fn shellcheck_path(&self) -> (p: &String)
        ensures
            p@ == self.shellcheck_path@,
    {
        &self.shellcheck_path
    }

    /// The shell dialect these settings name.
    pub fn shell(&self) -> (d: &String)
        ensures
            d@ == self.shell@,
    {
        &self.shell
    }

    /// Map linter findings to signals: per-severity counts, the total,
    /// and the density of findings per source line (at least one line is
    /// assumed for an empty snapshot).  All magnitudes are scaled.
    #[verifier::loop_isolation(false)]
    pub fn signals_from_issues(&self, issues: &Vec<ShellcheckIssue>, line_count: usize) -> (sig:
        Signals)
        requires
            issues@.len() * SCALE <= i64::MAX,
        ensures
            sig.wf(),
            sig.spec_value("error_count"@) == count_level(issues@, issues@.len() as int, "error"@)
                * SCALE,
            sig.spec_value("warning_count"@) == count_level(
                issues@,
                issues@.len() as int,
                "warning"@,
            ) * SCALE,
            sig.spec_value("info_count"@) == count_level(issues@, issues@.len() as int, "info"@)
                * SCALE,
            sig.spec_value("style_count"@) == count_level(issues@, issues@.len() as int, "style"@)
                * SCALE,
            sig.spec_value("total_issues"@) == (count_level(issues@, issues@.len() as int, "error"@)
                + count_level(issues@, issues@.len() as int, "warning"@) + count_level(
                issues@,
                issues@.len() as int,
                "info"@,
            ) + count_level(issues@, issues@.len() as int, "style"@)) * SCALE,
            sig.spec_value("issue_density"@) == (count_level(issues@, issues@.len() as int, "error"@)
                + count_level(issues@, issues@.len() as int, "warning"@) + count_level(
                issues@,
                issues@.len() as int,
                "info"@,
            ) + count_level(issues@, issues@.len() as int, "style"@)) * SCALE / (if line_count
                == 0 {
                1int
            } else if line_count > i64::MAX {
                i64::MAX as int
            } else {
                line_count as int
            }),
    {
        let n = issues.len();
        let mut errors: usize = 0;
        let mut warnings: usize = 0;
        let mut infos: usize = 0;
        let mut styles: usize = 0;
        let mut k: usize = 0;
        let lv_error = new_level_error();
        let lv_warning = new_level_warning();
        let lv_info = new_level_info();
        let lv_style = new_level_style();
        while k < n
            invariant
                n == issues@.len(),
                0 <= k <= n,
                lv_error@ == "error"@,
                lv_warning@ == "warning"@,
                lv_info@ == "info"@,
                lv_style@ == "style"@,
                errors as int == count_level(issues@, k as int, "error"@),
                warnings as int == count_level(issues@, k as int, "warning"@),
                infos as int == count_level(issues@, k as int, "info"@),
                styles as int == count_level(issues@, k as int, "style"@),
                errors <= k && warnings <= k && infos <= k && styles <= k,
            decreases n - k,
        {
            proof {
                lemma_count_level_bound(issues@, k as int, "error"@);
                lemma_count_level_bound(issues@, k as int, "warning"@);
                lemma_count_level_bound(issues@, k as int, "info"@);
                lemma_count_level_bound(issues@, k as int, "style"@);
                lemma_levels_distinct();
            }
            if issues[k].level == lv_error {
                errors = errors + 1;
            } else if issues[k].level == lv_warning {
                warnings = warnings + 1;
            } else if issues[k].level == lv_info {
                infos = infos + 1;
            } else if issues[k].level == lv_style {
                styles = styles + 1;
            }
            k = k + 1;
        }
        proof {
            lemma_count_level_bound(issues@, n as int, "error"@);
            lemma_count_level_bound(issues@, n as int, "warning"@);
            lemma_count_level_bound(issues@, n as int, "info"@);
            lemma_count_level_bound(issues@, n as int, "style"@);
            assert(issues@.len() as int <= i64::MAX) by (nonlinear_arith)
                requires
                    (issues@.len() as int) * (SCALE as int) <= i64::MAX,
            ;
            assert((errors as int) * SCALE <= (issues@.len() as int) * SCALE) by (nonlinear_arith)
                requires
                    0 <= errors as int <= issues@.len() as int,
            ;
            assert((warnings as int) * SCALE <= (issues@.len() as int) * SCALE)
                by (nonlinear_arith)
                requires
                    0 <= warnings as int <= issues@.len() as int,
            ;
            assert((infos as int) * SCALE <= (issues@.len() as int) * SCALE) by (nonlinear_arith)
                requires
                    0 <= infos as int <= issues@.len() as int,
            ;
            assert((styles as int) * SCALE <= (issues@.len() as int) * SCALE) by (nonlinear_arith)
                requires
                    0 <= styles as int <= issues@.len() as int,
            ;
        }
        proof {
            lemma_count_level_disjoint(issues@, n as int);
        }
        let total: usize = errors + warnings + infos + styles;
        proof {
            assert((total as int) * SCALE == (errors as int) * SCALE + (warnings as int) * SCALE
                + (infos as int) * SCALE + (styles as int) * SCALE) by (nonlinear_arith)
                requires
                    total as int == errors as int + warnings as int + infos as int + styles as int,
            ;
            assert((total as int) * SCALE <= (issues@.len() as int) * SCALE) by (nonlinear_arith)
                requires
                    0 <= total as int <= issues@.len() as int,
            ;
        }
        let e_scaled: i64 = (errors as i64) * SCALE;
        let w_scaled: i64 = (warnings as i64) * SCALE;
        let i_scaled: i64 = (infos as i64) * SCALE;
        let s_scaled: i64 = (styles as i64) * SCALE;
        let t_scaled: i64 = (total as i64) * SCALE;
        let lines64: u64 = if line_count == 0 {
            1
        } else {
            line_count as u64
        };
        let lines: u64 = if lines64 > 0x7fff_ffff_ffff_ffffu64 {
            0x7fff_ffff_ffff_ffffu64
        } else {
            lines64
        };
        let density_u: u64 = (t_scaled as u64) / lines;
        proof {
            vstd::arithmetic::div_mod::lemma_div_pos_is_pos(t_scaled as int, lines as int);
            vstd::arithmetic::div_mod::lemma_div_nonincreasing(t_scaled as int, lines as int);
        }
        let density: i64 = density_u as i64;
        let mut sig = Signals::new();
        sig.set(key_error_count(), e_scaled);
        sig.set(key_warning_count(), w_scaled);
        sig.set(key_info_count(), i_scaled);
        sig.set(key_style_count(), s_scaled);
        sig.set(new_key_total(), t_scaled);
        sig.set(new_key_density(), density);
        proof {
            lemma_keys_distinct();
        }
        sig
    }
}

impl Default for ShellcheckSensor {
    fn default() -> (s: ShellcheckSensor)
        ensures
            s.shellcheck_path@ == "shellcheck"@,
            s.shell@ == "bash"@,
    {
        ShellcheckSensor::new()
    }
}

/// Per-level counts never exceed the prefix length.
proof fn lemma_count_level_bound(issues: Seq<ShellcheckIssue>, n: int, lv: Seq<char>)
    ensures
        0 <= count_level(issues, n, lv) <= (if n > 0 {
            n
        } else {
            0int
        }),
    decreases n,
{
    if n > 0 {
        lemma_count_level_bound(issues, n - 1, lv);
    }
}

/// The six signal channel names are pairwise distinct.
proof fn lemma_keys_distinct()
    ensures
        "error_count"@ != "warning_count"@,
        "error_count"@ != "info_count"@,
        "error_count"@ != "style_count"@,
        "error_count"@ != "total_issues"@,
        "error_count"@ != "issue_density"@,
        "warning_count"@ != "info_count"@,
        "warning_count"@ != "style_count"@,
        "warning_count"@ != "total_issues"@,
        "warning_count"@ != "issue_density"@,
        "info_count"@ != "style_count"@,
        "info_count"@ != "total_issues"@,
        "info_count"@ != "issue_density"@,
        "style_count"@ != "total_issues"@,
        "style_count"@ != "issue_density"@,
        "total_issues"@ != "issue_density"@,
{
    reveal_strlit("error_count");
    reveal_strlit("warning_count");
    reveal_strlit("info_count");
    reveal_strlit("style_count");
    reveal_strlit("total_issues");
    reveal_strlit("issue_density");
    assert("error_count"@.len() == 11 && "warning_count"@.len() == 13 && "info_count"@.len() == 10
        && "style_count"@.len() == 11 && "total_issues"@.len() == 12 && "issue_density"@.len()
        == 13);
    assert("error_count"@[0] == 'e' && "style_count"@[0] == 's');
    assert("warning_count"@[0] == 'w' && "issue_density"@[0] == 'i');
}

/// The four level words are pairwise distinct.
proof fn lemma_levels_distinct()
    ensures
        "error"@ != "warning"@,
        "error"@ != "info"@,
        "error"@ != "style"@,
        "warning"@ != "info"@,
        "warning"@ != "style"@,
        "info"@ != "style"@,
{
    reveal_strlit("error");
    reveal_strlit("warning");
    reveal_strlit("info");
    reveal_strlit("style");
    assert("error"@.len() == 5 && "warning"@.len() == 7 && "info"@.len() == 4 && "style"@.len()
        == 5);
    assert("error"@[0] == 'e' && "style"@[0] == 's');
}

/// The four levels are pairwise distinct words, so their counts sum to
/// at most the number of issues.
proof fn lemma_count_level_disjoint(issues: Seq<ShellcheckIssue>, n: int)
    ensures
        0 <= count_level(issues, n, "error"@) + count_level(issues, n, "warning"@) + count_level(
            issues,
            n,
            "info"@,
        ) + count_level(issues, n, "style"@) <= (if n > 0 {
            n
        } else {
            0int
        }),
    decreases n,
{
    if n > 0 {
        lemma_count_level_disjoint(issues, n - 1);
        lemma_levels_distinct();
    }
}

/// The signal channel carrying the total count.
fn new_key_total() -> (s: String)
    ensures
        s@ == "total_issues"@,
{
    "total_issues".to_owned()
}

/// The signal channel carrying findings per line.
fn new_key_density() -> (s: String)
    ensures
        s@ == "issue_density"@,
{
    "issue_density".to_owned()
}

/// The error level.
fn new_level_error() -> (s: String)
    ensures
        s@ == "error"@,
{
    "error".to_owned()
}

/// The warning level.
fn new_level_warning() -> (s: String)
    ensures
        s@ == "warning"@,
{
    "warning".to_owned()
}

/// The info level.
fn new_level_info() -> (s: String)
    ensures
        s@ == "info"@,
{
    "info".to_owned()
}

/// The style level.
fn new_level_style() -> (s: String)
    ensures
        s@ == "style"@,
{
    "style".to_owned()
}

} // verus!
