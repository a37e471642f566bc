//! Command-line handling: the options the monitor accepts and the errors it
//! reports for the others.

use vstd::prelude::*;
use crate::text::{str_eq, starts_with, starts_with_spec, trim_start_matches, trim_start_matches_spec};
use crate::interval::{lemma_parse_interval_in_range, parse_interval_index, parse_interval_spec};

verus! {

/// An argument that the monitor refuses, with the message it reports
/// (an "invalid input" error).
#[derive(Debug)]
pub struct ArgError {
    pub message: String,
}

/// The error for an invalid argument, carrying `message`.
pub fn invalid_arg(message: String) -> (r: ArgError)
    ensures
        r.message@ == message@,
{
    ArgError { message }
}

/// What the monitor runs with, as the command line sets it.
#[derive(Debug, Clone, Copy, PartialEq, Eq, Structural)]
pub struct CliOptions {
    /// Position of the refresh interval among the supported ones.
    pub refresh_index: usize,
    /// Print one JSON snapshot and exit, in place of the dashboard.
    pub json_once: bool,
    /// Pretty-print that snapshot.
    pub json_pretty: bool,
}

/// What the command line asks for.
#[derive(Debug, Clone, Copy, PartialEq, Eq, Structural)]
pub enum CliAction {
    /// Print the usage text and exit.
    Help,
    /// Print the version and exit.
    Version,
    /// Run with these options.
    Run(CliOptions),
}

/// For one command-line argument, the number of seconds that it holds as
/// an interval (converted to whole milliseconds by the caller, see
/// `interval_millis`): read from the argument as given (the value that
/// follows `-i`), and from it without its `--interval=` prefixes.
#[derive(Debug, Clone, Copy, PartialEq, Eq, Structural)]
pub struct IntervalReading {
    pub as_given: Option<u64>,
    pub after_prefix: Option<u64>,
}

/// The reading for argument `j`; none where `readings` stops short.
pub open spec fn reading_at(readings: Seq<IntervalReading>, j: int) -> IntervalReading {
    if 0 <= j < readings.len() {
        readings[j]
    } else {
        IntervalReading { as_given: None, after_prefix: None }
    }
}

/// `opts` with another refresh interval.
pub open spec fn with_interval(opts: CliOptions, k: usize) -> CliOptions {
    CliOptions { refresh_index: k, json_once: opts.json_once, json_pretty: opts.json_pretty }
}

/// What the arguments from position `i` on make of the options `opts`:
/// read in order, the first help, version, or refused argument decides;
/// otherwise the options that all of them set.
pub open spec fn parse_args_from(
    args: Seq<Seq<char>>,
    readings: Seq<IntervalReading>,
    i: int,
    opts: CliOptions,
) -> Result<CliAction, Seq<char>>
    decreases args.len() - i,
{
    if i < 0 || i >= args.len() {
        Ok(CliAction::Run(opts))
    } else {
        let a = args[i];
        if a == "-h"@ || a == "--help"@ {
            Ok(CliAction::Help)
        } else if a == "-V"@ || a == "--version"@ {
            Ok(CliAction::Version)
        } else if a == "-i"@ || a == "--interval"@ {
            if i + 1 >= args.len() {
                Err("--interval requires a value"@)
            } else {
                match parse_interval_spec(args[i + 1], reading_at(readings, i + 1).as_given) {
                    Ok(k) => parse_args_from(args, readings, i + 2, with_interval(opts, k)),
                    Err(m) => Err(m),
                }
            }
        } else if starts_with_spec(a, "--interval="@) {
            match parse_interval_spec(
                trim_start_matches_spec(a, "--interval="@),
                reading_at(readings, i).after_prefix,
            ) {
                Ok(k) => parse_args_from(args, readings, i + 1, with_interval(opts, k)),
                Err(m) => Err(m),
            }
        } else if a == "--json"@ {
            parse_args_from(
                args,
                readings,
                i + 1,
                CliOptions { refresh_index: opts.refresh_index, json_once: true, json_pretty: opts.json_pretty },
            )
        } else if a == "--json-pretty"@ {
            parse_args_from(
                args,
                readings,
                i + 1,
                CliOptions { refresh_index: opts.refresh_index, json_once: true, json_pretty: true },
            )
        } else {
            Err("unknown argument: "@ + a)
        }
    }
}

/// The options before any argument is read.
pub open spec fn initial_options(refresh_index: usize) -> CliOptions {
    CliOptions { refresh_index, json_once: false, json_pretty: false }
}

/// What the whole command line asks for, or the message of its error.
pub open spec fn parse_args_spec(
    args: Seq<Seq<char>>,
    readings: Seq<IntervalReading>,
    refresh_index: usize,
) -> Result<CliAction, Seq<char>> {
    parse_args_from(args, readings, 0, initial_options(refresh_index))
}

/// A command-line result with the error taken by its message.
pub open spec fn cli_result_view(r: Result<CliAction, ArgError>) -> Result<CliAction, Seq<char>> {
    match r {
        Ok(a) => Ok(a),
        Err(e) => Err(e.message@),
    }
}

/// The text that an `--interval=VALUE` argument gives as the interval:
/// the argument without every leading `--interval=`.
pub fn interval_arg_value(arg: &str) -> (r: &str)
    ensures
        r@ == trim_start_matches_spec(arg@, "--interval="@),
{
    proof {
        reveal_strlit("--interval=");
    }
    trim_start_matches(arg, "--interval=")
}

/// Reads the command-line arguments (without the program name), starting
/// from the configured interval position `refresh_index`.
/// `readings[j]` is the reading of argument `j` as an interval of seconds.
pub fn parse_args(args: &Vec<String>, readings: &Vec<IntervalReading>, refresh_index: usize) -> (r:
    Result<CliAction, ArgError>)
    ensures
        cli_result_view(r) == parse_args_spec(
            args@.map_values(|s: String| s@),
            readings@,
            refresh_index,
        ),
{
    let ghost all = args@.map_values(|s: String| s@);
    let mut opts = CliOptions { refresh_index, json_once: false, json_pretty: false };
    let n = args.len();
    let mut i: usize = 0;
    while i < n
        invariant
            n == args@.len(),
            all == args@.map_values(|s: String| s@),
            i <= n,
            parse_args_spec(all, readings@, refresh_index) == parse_args_from(
                all,
                readings@,
                i as int,
                opts,
            ),
        decreases n - i,
    {
        let a = args[i].as_str();
        assert(all[i as int] == a@);
        if str_eq(a, "-h") || str_eq(a, "--help") {
            return Ok(CliAction::Help);
        } else if str_eq(a, "-V") || str_eq(a, "--version") {
            return Ok(CliAction::Version);
        } else if str_eq(a, "-i") || str_eq(a, "--interval") {
            if i + 1 >= n {
                return Err(invalid_arg(String::from_str("--interval requires a value")));
            }
            let v = args[i + 1].as_str();
            assert(all[i + 1] == v@);
            let reading = if i + 1 < readings.len() {
                readings[i + 1].as_given
            } else {
                None
            };
            match parse_interval_index(v, reading) {
                Ok(k) => {
                    opts = CliOptions {
                        refresh_index: k,
                        json_once: opts.json_once,
                        json_pretty: opts.json_pretty,
                    };
                    i = i + 2;
                },
                Err(e) => {
                    return Err(e);
                },
            }
        } else if starts_with(a, "--interval=") {
            let v = interval_arg_value(a);
            let reading = if i < readings.len() {
                readings[i].after_prefix
            } else {
                None
            };
            match parse_interval_index(v, reading) {
                Ok(k) => {
                    opts = CliOptions {
                        refresh_index: k,
                        json_once: opts.json_once,
                        json_pretty: opts.json_pretty,
                    };
                    i = i + 1;
                },
                Err(e) => {
                    return Err(e);
                },
            }
        } else if str_eq(a, "--json") {
            opts = CliOptions {
                refresh_index: opts.refresh_index,
                json_once: true,
                json_pretty: opts.json_pretty,
            };
            i = i + 1;
        } else if str_eq(a, "--json-pretty") {
            opts = CliOptions { refresh_index: opts.refresh_index, json_once: true, json_pretty: true };
            i = i + 1;
        } else {
            let mut m = String::from_str("unknown argument: ");
            m.append(a);
            return Err(invalid_arg(m));
        }
    }
    Ok(CliAction::Run(opts))
}

proof fn lemma_run_options_from(
    args: Seq<Seq<char>>,
    readings: Seq<IntervalReading>,
    i: int,
    opts: CliOptions,
)
    requires
        opts.json_pretty ==> opts.json_once,
    ensures
        parse_args_from(args, readings, i, opts) matches Ok(CliAction::Run(o)) ==> {
            &&& o.json_pretty ==> o.json_once
            &&& (o.refresh_index == opts.refresh_index || o.refresh_index < 5)
        },
    decreases args.len() - i,
{
    if i < 0 || i >= args.len() {
    } else {
        let a = args[i];
        if a == "-h"@ || a == "--help"@ {
        } else if a == "-V"@ || a == "--version"@ {
        } else if a == "-i"@ || a == "--interval"@ {
            if i + 1 < args.len() {
                let v = args[i + 1];
                let r = reading_at(readings, i + 1).as_given;
                lemma_parse_interval_in_range(v, r);
                if let Ok(k) = parse_interval_spec(v, r) {
                    lemma_run_options_from(args, readings, i + 2, with_interval(opts, k));
                }
            }
        } else if starts_with_spec(a, "--interval="@) {
            let v = trim_start_matches_spec(a, "--interval="@);
            let r = reading_at(readings, i).after_prefix;
            lemma_parse_interval_in_range(v, r);
            if let Ok(k) = parse_interval_spec(v, r) {
                lemma_run_options_from(args, readings, i + 1, with_interval(opts, k));
            }
        } else if a == "--json"@ {
            lemma_run_options_from(
                args,
                readings,
                i + 1,
                CliOptions { refresh_index: opts.refresh_index, json_once: true, json_pretty: opts.json_pretty },
            );
        } else if a == "--json-pretty"@ {
            lemma_run_options_from(
                args,
                readings,
                i + 1,
                CliOptions { refresh_index: opts.refresh_index, json_once: true, json_pretty: true },
            );
        }
    }
}

/// Pretty JSON output is a form of the JSON snapshot: whenever the command
/// line asks for it, it also asks for the single JSON snapshot.
pub proof fn law_pretty_json_implies_json(
    args: Seq<Seq<char>>,
    readings: Seq<IntervalReading>,
    refresh_index: usize,
)
    ensures
        parse_args_spec(args, readings, refresh_index) matches Ok(CliAction::Run(o)) ==> (o.json_pretty
            ==> o.json_once),
{
    lemma_run_options_from(args, readings, 0, initial_options(refresh_index));
}

/// The command line only ever selects a supported refresh interval: the
/// interval it runs with is the configured one or one of the supported
/// ones.
pub proof fn law_cli_interval_supported(
    args: Seq<Seq<char>>,
    readings: Seq<IntervalReading>,
    refresh_index: usize,
)
    requires
        refresh_index < 5,
    ensures
        parse_args_spec(args, readings, refresh_index) matches Ok(CliAction::Run(o))
            ==> o.refresh_index < 5,
{
    lemma_run_options_from(args, readings, 0, initial_options(refresh_index));
}

/// Whether `a` is an interval argument: `-i`, `--interval` or
/// `--interval=VALUE`.
pub open spec fn is_interval_flag(a: Seq<char>) -> bool {
    a == "-i"@ || a == "--interval"@ || starts_with_spec(a, "--interval="@)
}

/// Whether some argument from position `i` on equals `flag`.
pub open spec fn has_arg_from(args: Seq<Seq<char>>, i: int, flag: Seq<char>) -> bool {
    exists|j: int| i <= j < args.len() && args[j] == flag
}

proof fn lemma_literals()
    ensures
        "-h"@.len() == 2,
        "--help"@.len() == 6,
        "-V"@.len() == 2,
        "--version"@.len() == 9,
        "-i"@.len() == 2,
        "--interval"@.len() == 10,
        "--interval="@.len() == 11,
        "--json"@.len() == 6,
        "--json-pretty"@.len() == 13,
        "--json"@ != "--help"@,
        "--json"@[2] != "--interval="@[2],
        "--json-pretty"@[2] != "--interval="@[2],
        "-i"@ != "-h"@,
        "-i"@ != "-V"@,
{
    reveal_strlit("-h");
    reveal_strlit("--help");
    reveal_strlit("-V");
    reveal_strlit("--version");
    reveal_strlit("-i");
    reveal_strlit("--interval");
    reveal_strlit("--interval=");
    reveal_strlit("--json");
    reveal_strlit("--json-pretty");
    assert("--json"@[2] != "--help"@[2]);
    assert("-i"@[1] != "-h"@[1]);
    assert("-i"@[1] != "-V"@[1]);
}

proof fn lemma_no_interval_flags_from(
    args: Seq<Seq<char>>,
    readings: Seq<IntervalReading>,
    i: int,
    opts: CliOptions,
)
    requires
        0 <= i,
        forall|j: int| 0 <= j < args.len() ==> !is_interval_flag(#[trigger] args[j]),
    ensures
        parse_args_from(args, readings, i, opts) matches Ok(CliAction::Run(o)) ==> {
            &&& o.refresh_index == opts.refresh_index
            &&& o.json_once == (opts.json_once || has_arg_from(args, i, "--json"@) || has_arg_from(
                args,
                i,
                "--json-pretty"@,
            ))
            &&& o.json_pretty == (opts.json_pretty || has_arg_from(args, i, "--json-pretty"@))
        },
    decreases args.len() - i,
{
    lemma_literals();
    if i < args.len() {
        let a = args[i];
        assert(!is_interval_flag(a));
        let next = if a == "--json"@ {
            CliOptions { refresh_index: opts.refresh_index, json_once: true, json_pretty: opts.json_pretty }
        } else if a == "--json-pretty"@ {
            CliOptions { refresh_index: opts.refresh_index, json_once: true, json_pretty: true }
        } else {
            opts
        };
        lemma_no_interval_flags_from(args, readings, i + 1, next);
        if parse_args_from(args, readings, i, opts) matches Ok(CliAction::Run(o)) {
            assert(a != "-h"@ && a != "--help"@ && a != "-V"@ && a != "--version"@);
            assert(parse_args_from(args, readings, i, opts) == parse_args_from(
                args,
                readings,
                i + 1,
                next,
            ));
            assert(has_arg_from(args, i, "--json"@) == (a == "--json"@ || has_arg_from(
                args,
                i + 1,
                "--json"@,
            )));
            assert(has_arg_from(args, i, "--json-pretty"@) == (a == "--json-pretty"@
                || has_arg_from(args, i + 1, "--json-pretty"@)));
        }
    }
}

/// A command line with no interval argument runs with the configured
/// interval; it prints one JSON snapshot exactly when it holds `--json` or
/// `--json-pretty`, and pretty-prints it exactly when it holds
/// `--json-pretty`.
pub proof fn law_cli_without_interval_arguments(
    args: Seq<Seq<char>>,
    readings: Seq<IntervalReading>,
    refresh_index: usize,
)
    requires
        forall|j: int| 0 <= j < args.len() ==> !is_interval_flag(#[trigger] args[j]),
    ensures
        parse_args_spec(args, readings, refresh_index) matches Ok(CliAction::Run(o)) ==> {
            &&& o.refresh_index == refresh_index
            &&& o.json_once == (has_arg_from(args, 0, "--json"@) || has_arg_from(
                args,
                0,
                "--json-pretty"@,
            ))
            &&& o.json_pretty == has_arg_from(args, 0, "--json-pretty"@)
        },
{
    lemma_no_interval_flags_from(args, readings, 0, initial_options(refresh_index));
}

proof fn lemma_append_from(
    args: Seq<Seq<char>>,
    ext: Seq<Seq<char>>,
    readings: Seq<IntervalReading>,
    i: int,
    opts: CliOptions,
    o: CliOptions,
)
    requires
        0 <= i <= args.len(),
        parse_args_from(args, readings, i, opts) == Ok::<CliAction, Seq<char>>(CliAction::Run(o)),
    ensures
        parse_args_from(args + ext, readings, i, opts) == parse_args_from(
            args + ext,
            readings,
            args.len() as int,
            o,
        ),
    decreases args.len() - i,
{
    let all = args + ext;
    if i < args.len() {
        let a = args[i];
        assert(all[i] == a);
        if a == "-h"@ || a == "--help"@ {
        } else if a == "-V"@ || a == "--version"@ {
        } else if a == "-i"@ || a == "--interval"@ {
            assert(i + 1 < args.len());
            assert(all[i + 1] == args[i + 1]);
            let k = parse_interval_spec(args[i + 1], reading_at(readings, i + 1).as_given)->Ok_0;
            lemma_append_from(args, ext, readings, i + 2, with_interval(opts, k), o);
        } else if starts_with_spec(a, "--interval="@) {
            let k = parse_interval_spec(
                trim_start_matches_spec(a, "--interval="@),
                reading_at(readings, i).after_prefix,
            )->Ok_0;
            lemma_append_from(args, ext, readings, i + 1, with_interval(opts, k), o);
        } else if a == "--json"@ {
            lemma_append_from(
                args,
                ext,
                readings,
                i + 1,
                CliOptions { refresh_index: opts.refresh_index, json_once: true, json_pretty: opts.json_pretty },
                o,
            );
        } else if a == "--json-pretty"@ {
            lemma_append_from(
                args,
                ext,
                readings,
                i + 1,
                CliOptions { refresh_index: opts.refresh_index, json_once: true, json_pretty: true },
                o,
            );
        }
    }
}

/// Adding `--json` or `--json-pretty` at the end of a command line that
/// runs keeps its interval and turns on the JSON snapshot (and pretty
/// printing, for `--json-pretty`).
pub proof fn law_cli_append_json_flag(
    args: Seq<Seq<char>>,
    readings: Seq<IntervalReading>,
    refresh_index: usize,
    flag: Seq<char>,
    o: CliOptions,
)
    requires
        parse_args_spec(args, readings, refresh_index) == Ok::<CliAction, Seq<char>>(
            CliAction::Run(o),
        ),
        flag == "--json"@ || flag == "--json-pretty"@,
    ensures
        parse_args_spec(args.push(flag), readings, refresh_index) == Ok::<CliAction, Seq<char>>(
            CliAction::Run(
                CliOptions {
                    refresh_index: o.refresh_index,
                    json_once: true,
                    json_pretty: o.json_pretty || flag == "--json-pretty"@,
                },
            ),
        ),
{
    lemma_literals();
    let all = args.push(flag);
    assert(all =~= args + seq![flag]);
    lemma_append_from(args, seq![flag], readings, 0, initial_options(refresh_index), o);
    assert(all[args.len() as int] == flag);
    assert(!starts_with_spec(flag, "--interval="@)) by {
        if flag.len() >= 11 {
            assert(flag.subrange(0, 11)[2] == flag[2]);
        }
    }
    let n = args.len() as int;
    let next = CliOptions {
        refresh_index: o.refresh_index,
        json_once: true,
        json_pretty: o.json_pretty || flag == "--json-pretty"@,
    };
    assert(parse_args_from(all, readings, n + 1, next) == Ok::<CliAction, Seq<char>>(
        CliAction::Run(next),
    ));
    assert(flag.len() != 2 && flag.len() != 9 && flag.len() != 10);
    assert(flag != "--help"@) by {
        if flag == "--json"@ {
        } else {
            assert(flag.len() == 13);
        }
    }
    assert(parse_args_from(all, readings, n, o) == parse_args_from(all, readings, n + 1, next));
}

/// The last interval argument decides: adding `--interval=VALUE`, or `-i
/// VALUE`, at the end of a command line that runs gives the interval that
/// VALUE reads as, and keeps the other options.
pub proof fn law_cli_last_interval_wins(
    args: Seq<Seq<char>>,
    readings: Seq<IntervalReading>,
    refresh_index: usize,
    value: Seq<char>,
    o: CliOptions,
    k: usize,
)
    requires
        parse_args_spec(args, readings, refresh_index) == Ok::<CliAction, Seq<char>>(
            CliAction::Run(o),
        ),
    ensures
        parse_interval_spec(value, reading_at(readings, args.len() + 1int).as_given) == Ok::<
            usize,
            Seq<char>,
        >(k) ==> parse_args_spec(args + seq!["-i"@, value], readings, refresh_index) == Ok::<
            CliAction,
            Seq<char>,
        >(CliAction::Run(with_interval(o, k))),
        starts_with_spec(value, "--interval="@) && parse_interval_spec(
            trim_start_matches_spec(value, "--interval="@),
            reading_at(readings, args.len() as int).after_prefix,
        ) == Ok::<usize, Seq<char>>(k) ==> parse_args_spec(args.push(value), readings, refresh_index)
            == Ok::<CliAction, Seq<char>>(CliAction::Run(with_interval(o, k))),
{
    lemma_literals();
    let n = args.len() as int;
    let two = args + seq!["-i"@, value];
    lemma_append_from(args, seq!["-i"@, value], readings, 0, initial_options(refresh_index), o);
    assert(two[n] == "-i"@);
    assert(two[n + 1] == value);
    let one = args.push(value);
    assert(one =~= args + seq![value]);
    lemma_append_from(args, seq![value], readings, 0, initial_options(refresh_index), o);
    assert(one[n] == value);
    if parse_interval_spec(value, reading_at(readings, n + 1).as_given) == Ok::<usize, Seq<char>>(
        k,
    ) {
        assert(parse_args_from(two, readings, n + 2, with_interval(o, k)) == Ok::<
            CliAction,
            Seq<char>,
        >(CliAction::Run(with_interval(o, k))));
        assert(parse_args_from(two, readings, n, o) == parse_args_from(
            two,
            readings,
            n + 2,
            with_interval(o, k),
        ));
    }
    if starts_with_spec(value, "--interval="@) && parse_interval_spec(
        trim_start_matches_spec(value, "--interval="@),
        reading_at(readings, n).after_prefix,
    ) == Ok::<usize, Seq<char>>(k) {
        assert(value.len() >= 11);
        assert(parse_args_from(one, readings, n + 1, with_interval(o, k)) == Ok::<
            CliAction,
            Seq<char>,
        >(CliAction::Run(with_interval(o, k))));
        assert(parse_args_from(one, readings, n, o) == parse_args_from(
            one,
            readings,
            n + 1,
            with_interval(o, k),
        ));
    }
}

/// The first deciding argument wins: a command line that starts with a help
/// argument prints help and one that starts with a version argument prints
/// the version, whatever follows; one that starts with an argument the
/// monitor does not know is refused, naming that argument.
pub proof fn law_cli_first_argument_decides(
    first: Seq<char>,
    rest: Seq<Seq<char>>,
    readings: Seq<IntervalReading>,
    refresh_index: usize,
)
    ensures
        first == "-h"@ || first == "--help"@ ==> parse_args_spec(
            seq![first] + rest,
            readings,
            refresh_index,
        ) == Ok::<CliAction, Seq<char>>(CliAction::Help),
        first == "-V"@ || first == "--version"@ ==> parse_args_spec(
            seq![first] + rest,
            readings,
            refresh_index,
        ) == Ok::<CliAction, Seq<char>>(CliAction::Version),
        !is_interval_flag(first) && first != "-h"@ && first != "--help"@ && first != "-V"@ && first
            != "--version"@ && first != "--json"@ && first != "--json-pretty"@ ==> parse_args_spec(
            seq![first] + rest,
            readings,
            refresh_index,
        ) == Err::<CliAction, Seq<char>>("unknown argument: "@ + first),
{
    lemma_literals();
    let all = seq![first] + rest;
    assert(all[0] == first);
    if first == "-V"@ || first == "--version"@ {
        assert("-V"@ != "-h"@) by {
            reveal_strlit("-V");
            reveal_strlit("-h");
            assert("-V"@[1] != "-h"@[1]);
        }
    }
}

} // verus!
