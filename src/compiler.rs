//! Resolution of the Blueprint compiler among its candidate locations, and
//! the outcome of a compile. Running a candidate is left to the caller: the
//! decisions here take what the run gave and say what to do next.
use vstd::prelude::*;

verus! {

/// How many places the compiler is looked for.
pub const CANDIDATE_COUNT: usize = 4;

/// The candidate commands, most likely first: on `$PATH`, or under
/// `blueprint-compiler/` in the project root.
pub open spec fn candidate_spec(i: nat) -> Seq<char> {
    if i == 0 {
        "blueprint-compiler"@
    } else if i == 1 {
        "./blueprint-compiler/blueprint-compiler.py"@
    } else if i == 2 {
        "blueprint-compiler.py"@
    } else {
        "./blueprint-compiler/blueprint-compiler"@
    }
}

/// The program of candidate `i`; it is run as `<program> compile <path>`.
pub fn candidate_program(i: usize) -> (r: &'static str)
    requires
        i < CANDIDATE_COUNT,
    ensures
        r@ == candidate_spec(i as nat),
{
    if i == 0 {
        "blueprint-compiler"
    } else if i == 1 {
        "./blueprint-compiler/blueprint-compiler.py"
    } else if i == 2 {
        "blueprint-compiler.py"
    } else {
        "./blueprint-compiler/blueprint-compiler"
    }
}

/// What running one candidate gave.
pub enum Attempt {
    /// The program could not be found.
    NotFound,
    /// The program could not be run for another reason; the system's message.
    Failed(String),
    /// The program ran to its end.
    Exited { success: bool, code: Option<i32>, stdout: String, stderr: String },
}

/// Why no compiled text came back.
pub enum CompileError {
    /// None of the candidates could be found.
    ToolNotFound,
    /// A candidate was found but could not be run.
    Invocation(String),
    /// The compiler ran and reported failure.
    Compile { code: Option<i32>, stdout: String, stderr: String },
}

/// The result of compiling one source file.
pub enum CompileOutcome {
    Compiled(String),
    Failed(CompileError),
}

/// What to do after a candidate was tried.
pub enum Step {
    /// Run the candidate with this index.
    Run(usize),
    /// Stop: the compile is over.
    Finish(CompileOutcome),
}

/// The step after candidate `c` was tried and gave `a`: a candidate that is
/// not found passes the turn to the next one, anything else ends the compile.
pub open spec fn step_after(c: nat, a: Attempt) -> Step {
    match a {
        Attempt::NotFound => if c + 1 < CANDIDATE_COUNT {
            Step::Run((c + 1) as usize)
        } else {
            Step::Finish(CompileOutcome::Failed(CompileError::ToolNotFound))
        },
        Attempt::Failed(m) => Step::Finish(CompileOutcome::Failed(CompileError::Invocation(m))),
        Attempt::Exited { success, code, stdout, stderr } => if success {
            Step::Finish(CompileOutcome::Compiled(stdout))
        } else {
            Step::Finish(CompileOutcome::Failed(CompileError::Compile { code, stdout, stderr }))
        },
    }
}

/// Decides what follows the attempt with candidate `candidate`.
pub fn next_step(candidate: usize, attempt: Attempt) -> (r: Step)
    requires
        candidate < CANDIDATE_COUNT,
    ensures
        r == step_after(candidate as nat, attempt),
{
    match attempt {
        Attempt::NotFound => if candidate + 1 < CANDIDATE_COUNT {
            Step::Run(candidate + 1)
        } else {
            Step::Finish(CompileOutcome::Failed(CompileError::ToolNotFound))
        },
        Attempt::Failed(m) => Step::Finish(CompileOutcome::Failed(CompileError::Invocation(m))),
        Attempt::Exited { success, code, stdout, stderr } => if success {
            Step::Finish(CompileOutcome::Compiled(stdout))
        } else {
            Step::Finish(CompileOutcome::Failed(CompileError::Compile { code, stdout, stderr }))
        },
    }
}

/// The outcome of a compile whose attempts, from candidate `c` on, gave
/// `attempts` in turn; `None` while it is not over.
pub open spec fn resolution_from(c: nat, attempts: Seq<Attempt>) -> Option<CompileOutcome>
    decreases attempts.len(),
{
    if attempts.len() == 0 || c >= CANDIDATE_COUNT {
        None
    } else {
        match step_after(c, attempts[0]) {
            Step::Finish(o) => Some(o),
            Step::Run(n) => resolution_from(n as nat, attempts.drop_first()),
        }
    }
}

/// The outcome of a compile whose attempts gave `attempts` in turn.
pub open spec fn resolution(attempts: Seq<Attempt>) -> Option<CompileOutcome> {
    resolution_from(0, attempts)
}

proof fn lemma_tool_not_found_from(c: nat, attempts: Seq<Attempt>)
    requires
        c < CANDIDATE_COUNT,
    ensures
        resolution_from(c, attempts) == Some(CompileOutcome::Failed(CompileError::ToolNotFound))
            <==> (attempts.len() >= CANDIDATE_COUNT - c && forall|k: int|
            0 <= k < CANDIDATE_COUNT - c ==> #[trigger] attempts[k] == Attempt::NotFound),
    decreases attempts.len(),
{
    if attempts.len() > 0 {
        if c + 1 < CANDIDATE_COUNT {
            lemma_tool_not_found_from(c + 1, attempts.drop_first());
            if attempts[0] == Attempt::NotFound {
                if resolution_from(c + 1, attempts.drop_first()) != Some(
                    CompileOutcome::Failed(CompileError::ToolNotFound),
                ) {
                    if attempts.len() >= CANDIDATE_COUNT - c {
                        let k = choose|k: int|
                            0 <= k < CANDIDATE_COUNT - (c + 1) && #[trigger] attempts.drop_first()[k]
                                != Attempt::NotFound;
                        assert(attempts[k + 1] != Attempt::NotFound);
                    }
                } else {
                    assert forall|k: int| 0 <= k < CANDIDATE_COUNT - c implies #[trigger] attempts[k]
                        == Attempt::NotFound by {
                        if k > 0 {
                            assert(attempts[k] == attempts.drop_first()[k - 1]);
                        }
                    }
                }
            }
        }
    }
}

/// The compile ends in `ToolNotFound` exactly when every candidate, in
/// order, was not found; a compiler that ran, or could not be run, never
/// gives that error.
pub proof fn lemma_tool_not_found(attempts: Seq<Attempt>)
    ensures
        resolution(attempts) == Some(CompileOutcome::Failed(CompileError::ToolNotFound)) <==> (
        attempts.len() >= CANDIDATE_COUNT && forall|k: int|
            0 <= k < CANDIDATE_COUNT ==> #[trigger] attempts[k] == Attempt::NotFound),
{
    lemma_tool_not_found_from(0, attempts);
}

/// The character of the decimal digit `d`.
pub open spec fn digit_char(d: nat) -> char {
    if d == 0 { '0' } else if d == 1 { '1' } else if d == 2 { '2' } else if d == 3 { '3' }
    else if d == 4 { '4' } else if d == 5 { '5' } else if d == 6 { '6' } else if d == 7 { '7' }
    else if d == 8 { '8' } else { '9' }
}

/// The decimal digits of `n`, without leading zeros.
pub open spec fn decimal_digits(n: nat) -> Seq<char>
    decreases n,
{
    if n < 10 {
        seq![digit_char(n)]
    } else {
        decimal_digits(n / 10).push(digit_char(n % 10))
    }
}

/// `v` in decimal, with a `-` in front when it is negative.
pub open spec fn decimal(v: int) -> Seq<char> {
    if v < 0 {
        seq!['-'] + decimal_digits((-v) as nat)
    } else {
        decimal_digits(v as nat)
    }
}

fn digit_str(d: u64) -> (r: &'static str)
    requires
        d < 10,
    ensures
        r@ == seq![digit_char(d as nat)],
{
    proof {
        reveal_strlit("0"); reveal_strlit("1"); reveal_strlit("2"); reveal_strlit("3");
        reveal_strlit("4"); reveal_strlit("5"); reveal_strlit("6"); reveal_strlit("7");
        reveal_strlit("8"); reveal_strlit("9");
    }
    if d == 0 { "0" } else if d == 1 { "1" } else if d == 2 { "2" } else if d == 3 { "3" }
    else if d == 4 { "4" } else if d == 5 { "5" } else if d == 6 { "6" } else if d == 7 { "7" }
    else if d == 8 { "8" } else { "9" }
}

/// Writes `v` in decimal.
pub fn decimal_string(v: i32) -> (r: String)
    ensures
        r@ == decimal(v as int),
{
    let wide: i64 = v as i64;
    let mut m: u64 = if wide < 0 { (-wide) as u64 } else { wide as u64 };
    let ghost n: nat = m as nat;
    let mut acc = String::new();
    loop
        invariant_except_break
            decimal_digits(n) == decimal_digits(m as nat) + acc@,
        invariant
            m > 0 || n == 0,
            m <= n,
            n as int == (if v < 0 { -(v as int) } else { v as int }),
        ensures
            decimal_digits(n) == acc@,
        decreases m,
    {
        let d = m % 10;
        let ghost before = acc@;
        acc = String::from_str(digit_str(d)).concat(acc.as_str());
        if m < 10 {
            assert(decimal_digits(n) =~= acc@);
            break;
        }
        assert(decimal_digits(m as nat) == decimal_digits((m / 10) as nat).push(digit_char(d as nat)));
        assert(decimal_digits(n) =~= decimal_digits((m / 10) as nat) + acc@);
        m = m / 10;
    }
    if v < 0 {
        proof {
            reveal_strlit("-");
        }
        String::from_str("-").concat(acc.as_str())
    } else {
        acc
    }
}

/// The message shown when no candidate could be found.
pub open spec fn tool_not_found_text() -> Seq<char> {
    "Blueprint Compiler not found. Make sure it is in $PATH or ./blueprint-compiler/blueprint-compiler.py"@
}

/// The message that stands for an error.
pub open spec fn error_text(e: CompileError) -> Seq<char> {
    match e {
        CompileError::ToolNotFound => tool_not_found_text(),
        CompileError::Invocation(m) => "Unknown error occurred while invoking compiler:\n"@ + m@,
        CompileError::Compile { code, stdout, stderr } => match code {
            Some(c) => "blueprint-compiler exit code: "@ + decimal(c as int) + "\n"@ + stdout@
                + "\n"@ + stderr@,
            None => stdout@ + "\n"@ + stderr@,
        },
    }
}

impl CompileError {
    /// A copy of this error.
    pub fn duplicate(&self) -> (r: CompileError)
        ensures
            r == *self,
    {
        match self {
            CompileError::ToolNotFound => CompileError::ToolNotFound,
            CompileError::Invocation(m) => CompileError::Invocation(m.clone()),
            CompileError::Compile { code, stdout, stderr } => CompileError::Compile {
                code: *code,
                stdout: stdout.clone(),
                stderr: stderr.clone(),
            },
        }
    }

    /// A readable message: the exit code when there is one, then what the
    /// compiler wrote on standard output and on standard error.
    pub fn message(&self) -> (r: String)
        ensures
            r@ == error_text(*self),
    {
        match self {
            CompileError::ToolNotFound => String::from_str(
                "Blueprint Compiler not found. Make sure it is in $PATH or ./blueprint-compiler/blueprint-compiler.py",
            ),
            CompileError::Invocation(m) => String::from_str(
                "Unknown error occurred while invoking compiler:\n",
            ).concat(m.as_str()),
            CompileError::Compile { code, stdout, stderr } => match code {
                Some(c) => {
                    let digits = decimal_string(*c);
                    String::from_str("blueprint-compiler exit code: ").concat(
                        digits.as_str(),
                    ).concat("\n").concat(stdout.as_str()).concat("\n").concat(stderr.as_str())
                },
                None => String::from_str(stdout.as_str()).concat("\n").concat(stderr.as_str()),
            },
        }
    }
}

} // verus!
