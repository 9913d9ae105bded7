use vstd::prelude::*;

use crate::logger::LogEvent;
use crate::text::{decimal, push_char, push_decimal};

verus! {

/// The command line with the `--verbose auction` and `--fastbreak` flags taken out.
pub struct CommandLine {
    /// The remaining arguments, the program name first.
    pub args: Vec<String>,
    /// `--verbose auction` was given: auctions are logged in detail.
    pub verbose_auction: bool,
    /// `--fastbreak` was given: stop at the first failing scenario.
    pub fastbreak: bool,
}

/// The arguments without the flags, and whether each flag was given.
///
/// `--verbose` is always taken out; when the next argument is `auction` that one
/// is taken out too and auction logging is switched on.
pub open spec fn strip_flags(raw: Seq<Seq<char>>) -> (Seq<Seq<char>>, bool, bool)
    decreases raw.len(),
{
    if raw.len() == 0 {
        (Seq::empty(), false, false)
    } else if raw[0] == "--verbose"@ {
        if raw.len() > 1 && raw[1] == "auction"@ {
            let rest = strip_flags(raw.skip(2));
            (rest.0, true, rest.2)
        } else {
            strip_flags(raw.skip(1))
        }
    } else if raw[0] == "--fastbreak"@ {
        let rest = strip_flags(raw.skip(1));
        (rest.0, rest.1, true)
    } else {
        let rest = strip_flags(raw.skip(1));
        (seq![raw[0]] + rest.0, rest.1, rest.2)
    }
}

/// Some `--verbose` is directly followed by `auction`.
pub open spec fn asks_auction_logging(raw: Seq<Seq<char>>) -> bool {
    exists|i: int| 0 <= i && i + 1 < raw.len() && #[trigger] raw[i] == "--verbose"@ && raw[i + 1] == "auction"@
}

/// Neither `--verbose` nor `--fastbreak`.
pub open spec fn is_plain_argument(s: Seq<char>) -> bool {
    s != "--verbose"@ && s != "--fastbreak"@
}

/// The arguments in their order, every `--verbose` and `--fastbreak` left out.
pub open spec fn plain_arguments(raw: Seq<Seq<char>>) -> Seq<Seq<char>> {
    raw.filter(|s: Seq<char>| is_plain_argument(s))
}

/// Auction logging is switched on exactly when some `--verbose` is directly
/// followed by `auction`, and stopping at the first failure exactly when
/// `--fastbreak` occurs anywhere. Neither flag is left among the arguments, and
/// where auction logging is off the arguments are those given, in their order,
/// with every `--verbose` and `--fastbreak` left out.
pub proof fn law_flags_are_read_where_given(raw: Seq<Seq<char>>)
    ensures
        strip_flags(raw).1 == asks_auction_logging(raw),
        strip_flags(raw).2 == raw.contains("--fastbreak"@),
        forall|j: int| 0 <= j < strip_flags(raw).0.len() ==> is_plain_argument(#[trigger] strip_flags(raw).0[j]),
        !strip_flags(raw).1 ==> strip_flags(raw).0 == plain_arguments(raw),
    decreases raw.len(),
{
    reveal_strlit("--verbose");
    reveal_strlit("auction");
    reveal_strlit("--fastbreak");
    let verbose = "--verbose"@;
    let auction = "auction"@;
    let fastbreak = "--fastbreak"@;
    assert(verbose.len() == 9 && auction.len() == 7 && fastbreak.len() == 11);
    assert(verbose != auction && verbose != fastbreak && auction != fastbreak);
    let pred = |s: Seq<char>| is_plain_argument(s);
    if raw.len() == 0 {
        assert(!raw.contains(fastbreak));
        assert(plain_arguments(raw) =~= Seq::<Seq<char>>::empty());
    } else {
        let tail = raw.skip(1);
        assert(raw =~= seq![raw[0]] + tail);
        tail.lemma_filter_prepend(raw[0], pred);
        // Facts carried over from the tail.
        assert(raw.contains(fastbreak) == (raw[0] == fastbreak || tail.contains(fastbreak))) by {
            if raw.contains(fastbreak) && raw[0] != fastbreak {
                let k = choose|k: int| 0 <= k < raw.len() && raw[k] == fastbreak;
                assert(tail[k - 1] == fastbreak);
            }
            if tail.contains(fastbreak) {
                let k = choose|k: int| 0 <= k < tail.len() && tail[k] == fastbreak;
                assert(raw[k + 1] == fastbreak);
            }
        }
        let first_pair = raw.len() > 1 && raw[0] == verbose && raw[1] == auction;
        assert(asks_auction_logging(raw) == (first_pair || asks_auction_logging(tail))) by {
            if asks_auction_logging(raw) && !first_pair {
                let k = choose|k: int| 0 <= k && k + 1 < raw.len() && #[trigger] raw[k] == verbose && raw[k + 1] == auction;
                assert(k != 0);
                assert(tail[k - 1] == verbose && tail[k] == auction);
            }
            if asks_auction_logging(tail) {
                let k = choose|k: int| 0 <= k && k + 1 < tail.len() && #[trigger] tail[k] == verbose && tail[k + 1] == auction;
                assert(raw[k + 1] == verbose && raw[k + 2] == auction);
            }
            if first_pair {
                assert(raw[0] == verbose);
            }
        }
        if first_pair {
            let tail2 = raw.skip(2);
            law_flags_are_read_where_given(tail2);
            assert(tail2 =~= tail.skip(1));
            assert(tail.contains(fastbreak) == tail2.contains(fastbreak)) by {
                if tail.contains(fastbreak) {
                    let k = choose|k: int| 0 <= k < tail.len() && tail[k] == fastbreak;
                    assert(k != 0);
                    assert(tail2[k - 1] == fastbreak);
                }
                if tail2.contains(fastbreak) {
                    let k = choose|k: int| 0 <= k < tail2.len() && tail2[k] == fastbreak;
                    assert(tail[k + 1] == fastbreak);
                }
            }
        } else {
            law_flags_are_read_where_given(tail);
            if raw[0] != verbose && raw[0] != fastbreak {
                let rest = strip_flags(tail);
                assert forall|j: int| 0 <= j < strip_flags(raw).0.len() implies is_plain_argument(
                    #[trigger] strip_flags(raw).0[j],
                ) by {
                    if j > 0 {
                        assert(strip_flags(raw).0[j] == rest.0[j - 1]);
                    }
                }
            }
        }
    }
}

/// Take the `--verbose auction` and `--fastbreak` flags out of the command line.
pub fn parse_flags(raw_args: &Vec<String>) -> (c: CommandLine)
    ensures
        (c.args@.map_values(|s: String| s@), c.verbose_auction, c.fastbreak)
            == strip_flags(raw_args@.map_values(|s: String| s@)),
        c.verbose_auction == asks_auction_logging(raw_args@.map_values(|s: String| s@)),
        c.fastbreak == raw_args@.map_values(|s: String| s@).contains("--fastbreak"@),
        forall|j: int| 0 <= j < c.args@.len() ==> is_plain_argument(#[trigger] c.args@[j]@),
        !c.verbose_auction ==> c.args@.map_values(|s: String| s@) == plain_arguments(raw_args@.map_values(|s: String| s@)),
{
    proof {
        law_flags_are_read_where_given(raw_args@.map_values(|s: String| s@));
    }
    let ghost raw = raw_args@.map_values(|s: String| s@);
    let verbose = String::from_str("--verbose");
    let auction = String::from_str("auction");
    let fastbreak_flag = String::from_str("--fastbreak");
    let mut args: Vec<String> = Vec::new();
    let mut verbose_auction = false;
    let mut fastbreak = false;
    let n = raw_args.len();
    let mut i: usize = 0;
    proof {
        assert(raw.skip(0) =~= raw);
        assert(args@.map_values(|s: String| s@) =~= Seq::<Seq<char>>::empty());
        assert(Seq::<Seq<char>>::empty() + strip_flags(raw).0 =~= strip_flags(raw).0);
    }
    while i < n
        invariant
            n == raw_args@.len(),
            raw == raw_args@.map_values(|s: String| s@),
            verbose@ == "--verbose"@,
            auction@ == "auction"@,
            fastbreak_flag@ == "--fastbreak"@,
            i <= n,
            ({
                let rest = strip_flags(raw.skip(i as int));
                (args@.map_values(|s: String| s@) + rest.0, verbose_auction || rest.1, fastbreak || rest.2)
                    == strip_flags(raw)
            }),
        decreases n - i,
    {
        let ghost old_args = args@.map_values(|s: String| s@);
        let ghost old_v = verbose_auction;
        let ghost old_f = fastbreak;
        let ghost tail = raw.skip(i as int);
        assert(tail[0] == raw_args@[i as int]@);
        if raw_args[i] == verbose {
            if i + 1 < n && raw_args[i + 1] == auction {
                assert(tail[1] == raw_args@[i + 1]@);
                assert(tail.skip(2) =~= raw.skip(i + 2));
                verbose_auction = true;
                i = i + 2;
            } else {
                assert(tail.skip(1) =~= raw.skip(i + 1));
                if i + 1 < n {
                    assert(tail[1] == raw_args@[i + 1]@);
                }
                i = i + 1;
            }
        } else if raw_args[i] == fastbreak_flag {
            assert(tail.skip(1) =~= raw.skip(i + 1));
            fastbreak = true;
            i = i + 1;
        } else {
            assert(tail.skip(1) =~= raw.skip(i + 1));
            args.push(raw_args[i].clone());
            proof {
                let rest = strip_flags(raw.skip(i + 1));
                assert(args@.map_values(|s: String| s@) =~= old_args.push(tail[0]));
                assert(old_args + (seq![tail[0]] + rest.0) =~= old_args.push(tail[0]) + rest.0);
            }
            i = i + 1;
        }
    }
    proof {
        assert(raw.skip(n as int) =~= Seq::<Seq<char>>::empty());
        assert(args@.map_values(|s: String| s@) + Seq::<Seq<char>>::empty() =~= args@.map_values(|s: String| s@));
        assert forall|j: int| 0 <= j < args@.len() implies is_plain_argument(#[trigger] args@[j]@) by {
            assert(args@.map_values(|s: String| s@)[j] == args@[j]@);
        }
    }
    CommandLine { args, verbose_auction, fastbreak }
}

/// Whether `c` is a decimal digit.
pub open spec fn is_digit(c: char) -> bool {
    '0' <= c <= '9'
}

/// The value of a string of decimal digits.
pub open spec fn digits_value(s: Seq<char>) -> nat
    decreases s.len(),
{
    if s.len() == 0 {
        0
    } else {
        digits_value(s.drop_last()) * 10 + (s.last() as nat - 48) as nat
    }
}

/// The digits of a count: the string without a leading '+'.
pub open spec fn unsigned_digits(s: Seq<char>) -> Seq<char> {
    if s.len() > 0 && s[0] == '+' {
        s.skip(1)
    } else {
        s
    }
}

/// Every character is a decimal digit.
pub open spec fn all_digits(s: Seq<char>) -> bool {
    forall|i: int| 0 <= i < s.len() ==> is_digit(#[trigger] s[i])
}

/// The number a string reads as: an optional '+' and at least one decimal digit,
/// with a value that fits in a `u64`; `None` for any other string.
pub open spec fn parsed_u64(s: Seq<char>) -> Option<u64> {
    if unsigned_digits(s).len() > 0 && all_digits(unsigned_digits(s)) && digits_value(unsigned_digits(s)) <= u64::MAX {
        Some(digits_value(unsigned_digits(s)) as u64)
    } else {
        None
    }
}

/// Read a count given on the command line.
pub fn parse_u64(s: &str) -> (r: Option<u64>)
    ensures
        r == parsed_u64(s@),
{
    let n = s.unicode_len();
    let mut i: usize = 0;
    if n > 0 && s.get_char(0) == '+' {
        i = 1;
    }
    let ghost digits = unsigned_digits(s@);
    assert(s@.skip(i as int) =~= digits);
    if i == n {
        assert(digits.len() == 0);
        return None;
    }
    let start = i;
    let mut value: u64 = 0;
    let mut overflow = false;
    while i < n
        invariant
            n == s@.len(),
            start <= i <= n,
            digits == s@.skip(start as int),
            digits == unsigned_digits(s@),
            forall|k: int| start <= k < i ==> is_digit(#[trigger] s@[k]),
            !overflow ==> value == digits_value(s@.subrange(start as int, i as int)),
            overflow ==> digits_value(s@.subrange(start as int, i as int)) > u64::MAX,
        decreases n - i,
    {
        let c = s.get_char(i);
        if !('0' <= c && c <= '9') {
            assert(digits[i - start] == c);
            assert(!is_digit(digits[i - start]));
            assert(!all_digits(digits));
            return None;
        }
        let d = (c as u32 - 48u32) as u64;
        let ghost prefix = s@.subrange(start as int, i as int);
        assert(s@.subrange(start as int, i + 1).drop_last() =~= prefix);
        assert(digits_value(s@.subrange(start as int, i + 1)) == digits_value(prefix) * 10 + d);
        if !overflow {
            match value.checked_mul(10) {
                Some(v) => match v.checked_add(d) {
                    Some(w) => {
                        value = w;
                    },
                    None => {
                        overflow = true;
                    },
                },
                None => {
                    overflow = true;
                },
            }
        } else {
            assert(digits_value(prefix) * 10 + d >= digits_value(prefix)) by (nonlinear_arith);
        }
        i = i + 1;
    }
    assert(s@.subrange(start as int, n as int) =~= digits);
    assert forall|k: int| 0 <= k < digits.len() implies is_digit(#[trigger] digits[k]) by {
        assert(digits[k] == s@[start + k]);
    }
    if overflow {
        None
    } else {
        Some(value)
    }
}

/// What the program is asked to do.
pub enum Command {
    /// Draw the histograms of generated impressions.
    Charts,
    /// Draw the sigmoid charts.
    Sigmoid,
    /// Print the optimal and max margin bids for two sample impressions.
    Test,
    /// Run the named scenario (or "all") for a number of iterations, with seeds
    /// from `start_iteration` on.
    RunScenarios { scenario: String, iterations: u64, start_iteration: u64 },
    /// No argument: run the default scenario.
    RunDefault,
}

/// A command line that cannot be run.
pub enum CommandError {
    /// The iteration count is not a number.
    InvalidIterations { given: String },
    /// The start iteration is not a number.
    InvalidStartIteration { given: String },
}

/// What the arguments (with the flags taken out, the program name first) ask for.
pub open spec fn command_of(args: Seq<Seq<char>>) -> Result<(Seq<char>, u64, u64), Seq<char>> {
    let iterations = if args.len() > 2 { parsed_u64(args[2]) } else { Some(1u64) };
    let start = if args.len() > 3 { parsed_u64(args[3]) } else { Some(0u64) };
    if iterations is None {
        Err(args[2])
    } else if start is None {
        Err(args[3])
    } else {
        Ok((args[1], iterations->0, start->0))
    }
}

/// Work out the command from the arguments (the flags taken out, the program name
/// first): "charts", "sigmoid" or "test" as the first argument, or a scenario
/// name (or "all"), then optionally an iteration count (1 by default) and the
/// first iteration's index (0 by default); no argument runs the default scenario.
pub fn parse_command(args: &Vec<String>) -> (r: Result<Command, CommandError>)
    ensures
        args@.len() <= 1 ==> r matches Ok(Command::RunDefault),
        args@.len() > 1 && args@[1]@ == "charts"@ ==> r matches Ok(Command::Charts),
        args@.len() > 1 && args@[1]@ == "sigmoid"@ ==> r matches Ok(Command::Sigmoid),
        args@.len() > 1 && args@[1]@ == "test"@ ==> r matches Ok(Command::Test),
        args@.len() > 1 && args@[1]@ != "charts"@ && args@[1]@ != "sigmoid"@ && args@[1]@ != "test"@ ==> {
            let expected = command_of(args@.map_values(|s: String| s@));
            &&& expected matches Ok((name, iterations, start)) ==> (r matches Ok(Command::RunScenarios { scenario, iterations: it, start_iteration: st })
                && scenario@ == name && it == iterations && st == start)
            &&& (args@.len() > 2 && parsed_u64(args@[2]@) is None) ==> (r matches Err(CommandError::InvalidIterations { given })
                && given@ == args@[2]@)
            &&& (args@.len() > 2 && parsed_u64(args@[2]@) is Some && args@.len() > 3 && parsed_u64(args@[3]@) is None)
                ==> (r matches Err(CommandError::InvalidStartIteration { given }) && given@ == args@[3]@)
        },
{
    proof {
        reveal_strlit("charts");
        reveal_strlit("sigmoid");
        reveal_strlit("test");
        assert("charts"@.len() == 6 && "sigmoid"@.len() == 7 && "test"@.len() == 4);
    }
    if args.len() <= 1 {
        return Ok(Command::RunDefault);
    }
    let first = &args[1];
    if *first == String::from_str("charts") {
        return Ok(Command::Charts);
    }
    if *first == String::from_str("sigmoid") {
        return Ok(Command::Sigmoid);
    }
    if *first == String::from_str("test") {
        return Ok(Command::Test);
    }
    let iterations = if args.len() > 2 {
        match parse_u64(args[2].as_str()) {
            Some(n) => n,
            None => {
                return Err(CommandError::InvalidIterations { given: args[2].clone() });
            },
        }
    } else {
        1
    };
    let start_iteration = if args.len() > 3 {
        match parse_u64(args[3].as_str()) {
            Some(n) => n,
            None => {
                return Err(CommandError::InvalidStartIteration { given: args[3].clone() });
            },
        }
    } else {
        0
    };
    Ok(Command::RunScenarios { scenario: first.clone(), iterations, start_iteration })
}

impl CommandError {
    /// The message printed before the program exits.
    pub fn message(&self) -> (m: String)
        ensures
            self matches CommandError::InvalidIterations { given } ==> m@ == "Error: Invalid iterations parameter '"@
                + given@ + "'. Expected a number."@,
            self matches CommandError::InvalidStartIteration { given } ==> m@ == "Error: Invalid start iteration parameter '"@
                + given@ + "'. Expected a number."@,
    {
        match self {
            CommandError::InvalidIterations { given } => {
                let mut m = String::from_str("Error: Invalid iterations parameter '");
                m.append(given.as_str());
                m.append("'. Expected a number.");
                m
            },
            CommandError::InvalidStartIteration { given } => {
                let mut m = String::from_str("Error: Invalid start iteration parameter '");
                m.append(given.as_str());
                m.append("'. Expected a number.");
                m
            },
        }
    }
}

/// The events shown on the console: validations only when all scenarios run or a
/// scenario runs several times; validations and scenario details for a single run
/// of one scenario.
pub fn console_events(scenario_arg: &str, iterations: u64) -> (events: Vec<LogEvent>)
    ensures
        scenario_arg@ == "all"@ || iterations != 1 ==> events@ == seq![LogEvent::Validation],
        scenario_arg@ != "all"@ && iterations == 1 ==> events@ == seq![LogEvent::Validation, LogEvent::Scenario],
{
    if String::from_str(scenario_arg) == String::from_str("all") || iterations != 1 {
        let v = vec![LogEvent::Validation];
        assert(v@ =~= seq![LogEvent::Validation]);
        v
    } else {
        let v = vec![LogEvent::Validation, LogEvent::Scenario];
        assert(v@ =~= seq![LogEvent::Validation, LogEvent::Scenario]);
        v
    }
}

/// The progress mark before a run when a scenario runs several times:
/// "[<run>/<iterations>] ".
pub fn progress_mark(run: u64, iterations: u64) -> (r: String)
    ensures
        r@ == "["@ + decimal(run as nat) + "/"@ + decimal(iterations as nat) + "] "@,
{
    let mut r = String::from_str("[");
    push_decimal(&mut r, run);
    push_char(&mut r, '/');
    push_decimal(&mut r, iterations);
    r.append("] ");
    assert(r@ =~= "["@ + decimal(run as nat) + "/"@ + decimal(iterations as nat) + "] "@) by {
        reveal_strlit("/");
    }
    r
}

/// The mark after a run: a tick or a cross alone when the scenario runs several
/// times, "✓ PASSED" or "✗ FAILED: <error>" for a single run.
pub fn outcome_mark(iterations: u64, outcome: &Result<(), String>) -> (r: String)
    ensures
        iterations > 1 && outcome is Ok ==> r@ == "✓"@,
        iterations > 1 && outcome is Err ==> r@ == "✗"@,
        iterations <= 1 && outcome is Ok ==> r@ == "✓ PASSED"@,
        iterations <= 1 && outcome is Err ==> r@ == "✗ FAILED: "@ + outcome->Err_0@,
{
    match outcome {
        Ok(()) => {
            if iterations > 1 {
                String::from_str("✓")
            } else {
                String::from_str("✓ PASSED")
            }
        },
        Err(e) => {
            if iterations > 1 {
                String::from_str("✗")
            } else {
                String::from_str("✗ FAILED: ").concat(e.as_str())
            }
        },
    }
}

/// The line that opens a run of scenarios (the logger adds one more newline).
pub open spec fn run_header_text(scenario_arg: Seq<char>, iterations: u64, initial_count: u64) -> Seq<char> {
    let runs = " (Total simulation runs: "@ + decimal(initial_count as nat) + ")\n"@;
    if scenario_arg == "all"@ {
        if iterations > 1 {
            "Running all scenarios "@ + decimal(iterations as nat) + " times..."@ + runs
        } else {
            "Running all scenarios..."@ + runs
        }
    } else if iterations > 1 {
        "Running scenario '"@ + scenario_arg + "' "@ + decimal(iterations as nat) + " times..."@ + runs
    } else {
        "Running scenario '"@ + scenario_arg + "'..."@ + runs
    }
}

/// The line that opens a run of the named scenario (or "all") `iterations`
/// times, with the count of simulation runs so far.
pub fn run_header(scenario_arg: &str, iterations: u64, initial_count: u64) -> (r: String)
    ensures
        r@ == run_header_text(scenario_arg@, iterations, initial_count),
{
    let mut runs = String::from_str(" (Total simulation runs: ");
    push_decimal(&mut runs, initial_count);
    runs.append(")\n");
    if String::from_str(scenario_arg) == String::from_str("all") {
        if iterations > 1 {
            let mut r = String::from_str("Running all scenarios ");
            push_decimal(&mut r, iterations);
            r.append(" times...");
            r.append(runs.as_str());
            r
        } else {
            String::from_str("Running all scenarios...").concat(runs.as_str())
        }
    } else if iterations > 1 {
        let mut r = String::from_str("Running scenario '");
        r.append(scenario_arg);
        r.append("' ");
        push_decimal(&mut r, iterations);
        r.append(" times...");
        r.append(runs.as_str());
        r
    } else {
        let mut r = String::from_str("Running scenario '");
        r.append(scenario_arg);
        r.append("'...");
        r.append(runs.as_str());
        r
    }
}

/// The error reported when `--fastbreak` stops the runs: with the run's number
/// and seed when the scenario runs several times.
pub fn stop_error_line(iterations: u64, iteration_num: u64, seed: u64, error: &str) -> (r: String)
    ensures
        iterations > 1 ==> r@ == "Error at iteration "@ + decimal(iteration_num as nat) + "/"@
            + decimal(iterations as nat) + " (seed "@ + decimal(seed as nat) + "): "@ + error@,
        iterations <= 1 ==> r@ == "Error: "@ + error@,
{
    if iterations > 1 {
        let mut r = String::from_str("Error at iteration ");
        push_decimal(&mut r, iteration_num);
        push_char(&mut r, '/');
        push_decimal(&mut r, iterations);
        r.append(" (seed ");
        push_decimal(&mut r, seed);
        r.append("): ");
        r.append(error);
        assert(r@ =~= "Error at iteration "@ + decimal(iteration_num as nat) + "/"@ + decimal(iterations as nat)
            + " (seed "@ + decimal(seed as nat) + "): "@ + error@) by {
            reveal_strlit("/");
        }
        r
    } else {
        String::from_str("Error: ").concat(error)
    }
}

} // verus!
