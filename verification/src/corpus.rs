//! Synthetic corpus generation: shell scripts with known linter issues,
//! for controlled runs.  Writing the files is the caller's I/O; the text
//! built here is deterministic given the drawn random values.

use vstd::prelude::*;

use crate::baselines::draw_inclusive;

use vstd::string::StringSliceAdditionalSpecFns;

verus! {

/// A kind of linter issue the generator can inject.
#[derive(Clone, Copy, Debug, PartialEq, Eq, Structural)]
pub enum IssueType {
    /// `$var` instead of `"$var"`.
    UnquotedVariable,
    /// Backtick command substitution.
    BacktickSubstitution,
    /// `[ ]` instead of `[[ ]]`.
    OldTestSyntax,
    /// `echo $var` without quotes.
    UnquotedEcho,
    /// `cat file | grep`.
    UselessCat,
    /// Single quotes inside double quotes.
    DoubleQuotedSingleQuotes,
}

impl IssueType {
    /// All issue kinds, in a fixed order.
    pub fn all() -> (v: Vec<IssueType>)
        ensures
            v@.len() == 6,
            v@[0] == IssueType::UnquotedVariable,
            v@[1] == IssueType::BacktickSubstitution,
            v@[2] == IssueType::OldTestSyntax,
            v@[3] == IssueType::UnquotedEcho,
            v@[4] == IssueType::UselessCat,
            v@[5] == IssueType::DoubleQuotedSingleQuotes,
    {
        let mut v: Vec<IssueType> = Vec::new();
        v.push(IssueType::UnquotedVariable);
        v.push(IssueType::BacktickSubstitution);
        v.push(IssueType::OldTestSyntax);
        v.push(IssueType::UnquotedEcho);
        v.push(IssueType::UselessCat);
        v.push(IssueType::DoubleQuotedSingleQuotes);
        v
    }

    /// The linter rule code this issue kind trips.
    pub fn shellcheck_code(&self) -> (c: u32)
        ensures
            c == self.spec_code(),
    {
        match self {
            IssueType::UnquotedVariable => 2086,
            IssueType::BacktickSubstitution => 2006,
            IssueType::OldTestSyntax => 2039,
            IssueType::UnquotedEcho => 2086,
            IssueType::UselessCat => 2002,
            IssueType::DoubleQuotedSingleQuotes => 2016,
        }
    }

    /// The linter rule code, at the specification level.
    pub open spec fn spec_code(&self) -> u32 {
        match self {
            IssueType::UnquotedVariable => 2086,
            IssueType::BacktickSubstitution => 2006,
            IssueType::OldTestSyntax => 2039,
            IssueType::UnquotedEcho => 2086,
            IssueType::UselessCat => 2002,
            IssueType::DoubleQuotedSingleQuotes => 2016,
        }
    }

    /// The severity level the linter reports for this kind.
    pub fn severity(&self) -> (s: &'static str)
        ensures
            s@ == self.spec_severity(),
    {
        match self {
            IssueType::UnquotedVariable => "warning",
            IssueType::BacktickSubstitution => "style",
            IssueType::OldTestSyntax => "warning",
            IssueType::UnquotedEcho => "warning",
            IssueType::UselessCat => "style",
            IssueType::DoubleQuotedSingleQuotes => "info",
        }
    }

    /// The severity level, at the specification level.
    pub open spec fn spec_severity(&self) -> Seq<char> {
        match self {
            IssueType::UnquotedVariable => "warning"@,
            IssueType::BacktickSubstitution => "style"@,
            IssueType::OldTestSyntax => "warning"@,
            IssueType::UnquotedEcho => "warning"@,
            IssueType::UselessCat => "style"@,
            IssueType::DoubleQuotedSingleQuotes => "info"@,
        }
    }
}

/// How much corpus to generate, and with which seed.
#[derive(Clone, Copy)]
pub struct CorpusConfig {
    pub script_count: usize,
    pub min_functions: usize,
    pub max_functions: usize,
    pub min_issues: usize,
    pub max_issues: usize,
    pub seed: u64,
}

impl CorpusConfig {
    /// Ten scripts of five to fifteen functions, one to five issues
    /// each, under a fixed seed.
    pub fn new_default() -> (c: CorpusConfig)
        ensures
            c.script_count == 10,
            c.min_functions == 5,
            c.max_functions == 15,
            c.min_issues == 1,
            c.max_issues == 5,
            c.seed == 42,
    {
        CorpusConfig {
            script_count: 10,
            min_functions: 5,
            max_functions: 15,
            min_issues: 1,
            max_issues: 5,
            seed: 42,
        }
    }
}

impl Default for CorpusConfig {
    fn default() -> (c: CorpusConfig)
        ensures
            c.script_count == 10 && c.min_functions == 5 && c.max_functions == 15 && c.min_issues
                == 1 && c.max_issues == 5 && c.seed == 42,
    {
        CorpusConfig::new_default()
    }
}

/// Generates synthetic shell scripts with injected issues.
pub struct CorpusGenerator {
    pub config: CorpusConfig,
    pub rng: rand::rngs::StdRng,
}

/// The decimal digits of `n`, most significant first.
pub open spec fn dec_bytes(n: int) -> Seq<u8>
    decreases n,
{
    if n < 10 {
        seq![(48 + (if n < 0 { 0int } else { n })) as u8]
    } else {
        dec_bytes(n / 10) + seq![(48 + n % 10) as u8]
    }
}

/// Append the decimal digits of `n`.
#[verifier::loop_isolation(false)]
fn push_decimal(out: &mut Vec<u8>, n: usize)
    ensures
        final(out)@ == old(out)@ + dec_bytes(n as int),
    decreases n,
{
    if n < 10 {
        out.push(48 + (n as u8));
        proof {
            assert(out@ =~= old(out)@ + dec_bytes(n as int));
        }
    } else {
        let q = n / 10;
        let r = n % 10;
        push_decimal(out, q);
        out.push(48 + (r as u8));
        proof {
            assert(out@ =~= old(out)@ + dec_bytes(n as int));
        }
    }
}

/// Append the bytes of a literal.
fn push_lit(out: &mut Vec<u8>, lit: &str)
    ensures
        final(out)@ == old(out)@ + lit.spec_bytes(),
{
    let lb = vstd::string::StrSliceExecFns::as_bytes_vec(lit);
    out.extend_from_slice(lb.as_slice());
    proof {
        assert(out@ =~= old(out)@ + lit.spec_bytes());
    }
}

impl CorpusGenerator {
    /// A generator seeded from the configuration.
    pub fn new(config: CorpusConfig) -> (g: CorpusGenerator)
        ensures
            g.config == config,
    {
        let rng = crate::baselines::rng_from_seed(config.seed);
        CorpusGenerator { config, rng }
    }

    /// One line holding the given issue kind; the drawn variable names
    /// come from a fixed table.
    pub fn generate_issue_line(&mut self, issue_type: IssueType) -> (line: Vec<u8>)
        ensures
            final(self).config == old(self).config,
    {
        let mut out: Vec<u8> = Vec::new();
        match issue_type {
            IssueType::UnquotedVariable => {
                push_lit(&mut out, "echo $");
                let name = self.random_var_name();
                out.extend_from_slice(name.as_slice());
            },
            IssueType::BacktickSubstitution => {
                push_lit(&mut out, "result=`date +%Y-%m-%d`");
            },
            IssueType::OldTestSyntax => {
                push_lit(&mut out, "[ -n $");
                let name = self.random_var_name();
                out.extend_from_slice(name.as_slice());
                push_lit(&mut out, " ] && echo 'set'");
            },
            IssueType::UnquotedEcho => {
                push_lit(&mut out, "echo The value is $");
                let name = self.random_var_name();
                out.extend_from_slice(name.as_slice());
            },
            IssueType::UselessCat => {
                push_lit(&mut out, "cat /etc/passwd | grep root");
            },
            IssueType::DoubleQuotedSingleQuotes => {
                push_lit(&mut out, "echo \"It's a 'test'\"");
            },
        }
        out
    }

    /// A variable name drawn from a fixed table.
    pub fn random_var_name(&mut self) -> (name: Vec<u8>)
        ensures
            final(self).config == old(self).config,
    {
        let i = draw_inclusive(&mut self.rng, 0, 7);
        let mut out: Vec<u8> = Vec::new();
        if i == 0 {
            push_lit(&mut out, "name");
        } else if i == 1 {
            push_lit(&mut out, "value");
        } else if i == 2 {
            push_lit(&mut out, "path");
        } else if i == 3 {
            push_lit(&mut out, "file");
        } else if i == 4 {
            push_lit(&mut out, "dir");
        } else if i == 5 {
            push_lit(&mut out, "input");
        } else if i == 6 {
            push_lit(&mut out, "output");
        } else {
            push_lit(&mut out, "result");
        }
        out
    }

    /// One function named `func_<index>` holding between `min_issues`
    /// and `max_issues` issue lines.
    pub fn generate_function(&mut self, index: usize) -> (body: Vec<u8>)
        requires
            old(self).config.min_issues <= old(self).config.max_issues,
        ensures
            final(self).config == old(self).config,
            body@.len() >= "func_".spec_bytes().len() + dec_bytes(index as int).len(),
            body@.subrange(
                0,
                "func_".spec_bytes().len() + dec_bytes(index as int).len() as int,
            ) == "func_".spec_bytes() + dec_bytes(index as int),
    {
        let mut out: Vec<u8> = Vec::new();
        push_lit(&mut out, "func_");
        push_decimal(&mut out, index);
        let ghost head = out@;
        push_lit(&mut out, "() {\n");
        let issue_count = draw_inclusive(
            &mut self.rng,
            self.config.min_issues,
            self.config.max_issues,
        );
        let kinds = IssueType::all();
        let mut k: usize = 0;
        while k < issue_count
            invariant
                self.config == old(self).config,
                self.config.min_issues <= self.config.max_issues,
                kinds@.len() == 6,
                out@.len() >= head.len(),
                out@.subrange(0, head.len() as int) == head,
            decreases issue_count - k,
        {
            let ghost pre = out@;
            let which = draw_inclusive(&mut self.rng, 0, 5);
            let kind = kinds[which];
            push_lit(&mut out, "    ");
            let line = self.generate_issue_line(kind);
            out.extend_from_slice(line.as_slice());
            push_lit(&mut out, "\n");
            proof {
                assert(out@.subrange(0, head.len() as int) =~= pre.subrange(0, head.len() as int));
            }
            k = k + 1;
        }
        let ghost pre = out@;
        push_lit(&mut out, "}\n");
        proof {
            assert(out@.subrange(0, head.len() as int) =~= pre.subrange(0, head.len() as int));
            assert(head == "func_".spec_bytes() + dec_bytes(index as int));
        }
        out
    }

    /// One whole script: the interpreter line, a comment naming the
    /// script, and the generated functions.  The first function is named
    /// `func_0` and stands right after the comment block.
    pub fn generate_script(&mut self, index: usize) -> (script: Vec<u8>)
        requires
            old(self).config.min_issues <= old(self).config.max_issues,
            old(self).config.min_functions <= old(self).config.max_functions,
            1 <= old(self).config.min_functions,
        ensures
            final(self).config == old(self).config,
            script@.len() >= "#!/bin/bash\n".spec_bytes().len(),
            script@.subrange(0, "#!/bin/bash\n".spec_bytes().len() as int) == "#!/bin/bash\n".spec_bytes(),
            exists|off: int|
                #![trigger script@.subrange(off, off + "func_0".spec_bytes().len() as int)]
                0 <= off && off + "func_0".spec_bytes().len() <= script@.len() && script@.subrange(
                    off,
                    off + "func_0".spec_bytes().len() as int,
                ) == "func_0".spec_bytes(),
    {
        let mut out: Vec<u8> = Vec::new();
        push_lit(&mut out, "#!/bin/bash\n");
        let ghost shebang = out@;
        push_lit(&mut out, "# generated test script ");
        push_decimal(&mut out, index);
        push_lit(&mut out, "\n\n");
        let func_count = draw_inclusive(
            &mut self.rng,
            self.config.min_functions,
            self.config.max_functions,
        );
        let ghost mut func0_off: int = 0;
        let mut f: usize = 0;
        while f < func_count
            invariant
                self.config == old(self).config,
                self.config.min_issues <= self.config.max_issues,
                1 <= func_count,
                0 <= f <= func_count,
                out@.len() >= shebang.len(),
                out@.subrange(0, shebang.len() as int) == shebang,
                f >= 1 ==> 0 <= func0_off && func0_off + "func_0".spec_bytes().len()
                    <= out@.len() && out@.subrange(
                    func0_off,
                    func0_off + "func_0".spec_bytes().len() as int,
                ) == "func_0".spec_bytes(),
            decreases func_count - f,
        {
            let ghost pre = out@;
            if f == 0 {
                proof {
                    func0_off = pre.len() as int;
                }
            }
            let body = self.generate_function(f);
            out.extend_from_slice(body.as_slice());
            push_lit(&mut out, "\n");
            proof {
                assert(out@.subrange(0, shebang.len() as int) =~= pre.subrange(
                    0,
                    shebang.len() as int,
                ));
                if f == 0 {
                    assert(dec_bytes(0) =~= seq![48u8]);
                    assert("func_0".spec_bytes() =~= "func_".spec_bytes() + dec_bytes(0)) by {
                        reveal_strlit("func_0");
                        reveal_strlit("func_");
                        broadcast use vstd::string::is_ascii_spec_bytes;

                        assert("func_0".is_ascii() && "func_".is_ascii());
                    }
                    assert(out@.subrange(
                        func0_off,
                        func0_off + "func_0".spec_bytes().len() as int,
                    ) =~= "func_0".spec_bytes());
                } else {
                    assert(out@.subrange(
                        func0_off,
                        func0_off + "func_0".spec_bytes().len() as int,
                    ) =~= pre.subrange(
                        func0_off,
                        func0_off + "func_0".spec_bytes().len() as int,
                    ));
                }
            }
            f = f + 1;
        }
        out
    }
}

} // verus!
