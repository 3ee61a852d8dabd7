//! Command-line arguments: what they are, and how they are read.
use vstd::prelude::*;
use crate::level::{level_of_token, Level};
use crate::text::{str_eq, string_of};

verus! {

/// The options of one run of the command-line tool.
pub struct Args {
    pub path: String,
    pub json: bool,
    pub min_level: Option<Level>,
    pub level: Option<Level>,
    pub since: Option<String>,
    pub until: Option<String>,
    pub follow: bool,
    pub lines: bool,
    pub grep: Option<String>,
}

pub struct ArgsView {
    pub path: Seq<char>,
    pub json: bool,
    pub min_level: Option<Level>,
    pub level: Option<Level>,
    pub since: Option<Seq<char>>,
    pub until: Option<Seq<char>>,
    pub follow: bool,
    pub lines: bool,
    pub grep: Option<Seq<char>>,
}

impl View for Args {
    type V = ArgsView;

    open spec fn view(&self) -> ArgsView {
        ArgsView {
            path: self.path@,
            json: self.json,
            min_level: self.min_level,
            level: self.level,
            since: self.since.deep_view(),
            until: self.until.deep_view(),
            follow: self.follow,
            lines: self.lines,
            grep: self.grep.deep_view(),
        }
    }
}

pub open spec fn usage_text() -> Seq<char> {
    "usage: loglens <file> [--json] [--min-level LEVEL] [--level LEVEL] [--since TIMESTAMP] [--until TIMESTAMP] [--grep TEXT] [--follow] [--lines]\n\n\
     Flags not passed on the command line fall back to environment variables:\n\
     LOGLENS_JSON, LOGLENS_FOLLOW, LOGLENS_LINES (any value other than empty, \"0\", or \"false\" counts as set),\n\
     LOGLENS_MIN_LEVEL, LOGLENS_LEVEL, LOGLENS_SINCE, LOGLENS_UNTIL, LOGLENS_GREP."@
}

/// The usage text shown for `--help` and after every argument error.
pub fn usage() -> (r: String)
    ensures
        r@ == usage_text(),
{
    string_of(
        "usage: loglens <file> [--json] [--min-level LEVEL] [--level LEVEL] [--since TIMESTAMP] [--until TIMESTAMP] [--grep TEXT] [--follow] [--lines]\n\n\
     Flags not passed on the command line fall back to environment variables:\n\
     LOGLENS_JSON, LOGLENS_FOLLOW, LOGLENS_LINES (any value other than empty, \"0\", or \"false\" counts as set),\n\
     LOGLENS_MIN_LEVEL, LOGLENS_LEVEL, LOGLENS_SINCE, LOGLENS_UNTIL, LOGLENS_GREP.",
    )
}

/// Every option at its default, with an empty path.
pub open spec fn default_args() -> ArgsView {
    ArgsView {
        path: Seq::empty(),
        json: false,
        min_level: None,
        level: None,
        since: None,
        until: None,
        follow: false,
        lines: false,
        grep: None,
    }
}

/// `message`, a blank line, then the usage text.
pub open spec fn with_usage(message: Seq<char>) -> Seq<char> {
    message + "\n\n"@ + usage_text()
}

/// Reading `args[i..]` with the options read so far in `acc` and the last
/// positional argument, if any, in `path`. Later flags override earlier
/// ones; a flag that takes a value consumes the next argument.
pub open spec fn parse_from(
    args: Seq<Seq<char>>,
    i: int,
    path: Option<Seq<char>>,
    acc: ArgsView,
) -> Result<ArgsView, Seq<char>>
    decreases args.len() - i,
{
    if i >= args.len() || i < 0 {
        match path {
            Some(p) => Ok(ArgsView { path: p, ..acc }),
            None => Err(with_usage("missing log file path"@)),
        }
    } else {
        let a = args[i];
        if a == "--json"@ {
            parse_from(args, i + 1, path, ArgsView { json: true, ..acc })
        } else if a == "--follow"@ || a == "-f"@ {
            parse_from(args, i + 1, path, ArgsView { follow: true, ..acc })
        } else if a == "--lines"@ {
            parse_from(args, i + 1, path, ArgsView { lines: true, ..acc })
        } else if a == "-h"@ || a == "--help"@ {
            Err(usage_text())
        } else if a == "--min-level"@ || a == "--level"@ {
            if i + 1 >= args.len() {
                Err(with_usage(a + " needs a value"@))
            } else {
                match level_of_token(args[i + 1]) {
                    None => Err(with_usage("unrecognized level: "@ + args[i + 1])),
                    Some(l) => if a == "--min-level"@ {
                        parse_from(args, i + 2, path, ArgsView { min_level: Some(l), ..acc })
                    } else {
                        parse_from(args, i + 2, path, ArgsView { level: Some(l), ..acc })
                    },
                }
            }
        } else if a == "--since"@ || a == "--until"@ {
            if i + 1 >= args.len() {
                Err(with_usage(a + " needs a timestamp"@))
            } else if a == "--since"@ {
                parse_from(args, i + 2, path, ArgsView { since: Some(args[i + 1]), ..acc })
            } else {
                parse_from(args, i + 2, path, ArgsView { until: Some(args[i + 1]), ..acc })
            }
        } else if a == "--grep"@ || a == "--message-contains"@ {
            if i + 1 >= args.len() {
                Err(with_usage(a + " needs a value"@))
            } else {
                parse_from(args, i + 2, path, ArgsView { grep: Some(args[i + 1]), ..acc })
            }
        } else if a.len() > 0 && a[0] == '-' {
            Err(with_usage("unrecognized flag: "@ + a))
        } else {
            parse_from(args, i + 1, Some(a), acc)
        }
    }
}

pub open spec fn arg_views(args: Seq<String>) -> Seq<Seq<char>> {
    args.map_values(|a: String| a@)
}

/// What the command line (program name excluded) asks for.
pub open spec fn parse_args_spec(args: Seq<Seq<char>>) -> Result<ArgsView, Seq<char>> {
    parse_from(args, 0, None, default_args())
}

/// `message`, a blank line, then the usage text.
fn usage_error(message: String) -> (r: String)
    ensures
        r@ == with_usage(message@),
{
    let mut out = message;
    out.append("\n\n");
    out.append(usage().as_str());
    out
}

fn concat(a: &str, b: &str) -> (r: String)
    ensures
        r@ == a@ + b@,
{
    let mut out = string_of(a);
    out.append(b);
    out
}

fn copy_string(s: &String) -> (r: String)
    ensures
        r@ == s@,
{
    s.clone()
}

fn starts_with_dash(s: &str) -> (r: bool)
    ensures
        r == (s@.len() > 0 && s@[0] == '-'),
{
    let v = crate::text::chars_of(s);
    v.len() > 0 && v[0] == '-'
}

/// Read the command-line arguments (program name excluded) into `Args`,
/// or the message to show when they don't make sense.
pub fn parse_args(args: &[String]) -> (r: Result<Args, String>)
    ensures
        match r {
            Ok(a) => parse_args_spec(arg_views(args@)) == Ok::<ArgsView, Seq<char>>(a@),
            Err(m) => parse_args_spec(arg_views(args@)) == Err::<ArgsView, Seq<char>>(m@),
        },
{
    let ghost av = arg_views(args@);
    let mut path: Option<String> = None;
    let mut out = Args {
        path: String::new(),
        json: false,
        min_level: None,
        level: None,
        since: None,
        until: None,
        follow: false,
        lines: false,
        grep: None,
    };
    let mut i: usize = 0;
    while i < args.len()
        invariant
            i <= args@.len(),
            av == arg_views(args@),
            av.len() == args@.len(),
            out@.path == Seq::<char>::empty(),
            parse_args_spec(av) == parse_from(av, i as int, path.deep_view(), out@),
        decreases args@.len() - i,
    {
        let a = args[i].as_str();
        assert(av[i as int] == a@);
        if str_eq(a, "--json") {
            out.json = true;
            i = i + 1;
        } else if str_eq(a, "--follow") || str_eq(a, "-f") {
            out.follow = true;
            i = i + 1;
        } else if str_eq(a, "--lines") {
            out.lines = true;
            i = i + 1;
        } else if str_eq(a, "-h") || str_eq(a, "--help") {
            return Err(usage());
        } else if str_eq(a, "--min-level") || str_eq(a, "--level") {
            if i + 1 >= args.len() {
                return Err(usage_error(concat(a, " needs a value")));
            }
            let value = args[i + 1].as_str();
            assert(av[i + 1] == value@);
            let l = match Level::parse(value) {
                Some(l) => l,
                None => return Err(usage_error(concat("unrecognized level: ", value))),
            };
            if str_eq(a, "--min-level") {
                out.min_level = Some(l);
            } else {
                out.level = Some(l);
            }
            i = i + 2;
        } else if str_eq(a, "--since") || str_eq(a, "--until") {
            if i + 1 >= args.len() {
                return Err(usage_error(concat(a, " needs a timestamp")));
            }
            assert(av[i + 1] == args@[i + 1]@);
            if str_eq(a, "--since") {
                out.since = Some(copy_string(&args[i + 1]));
            } else {
                out.until = Some(copy_string(&args[i + 1]));
            }
            i = i + 2;
        } else if str_eq(a, "--grep") || str_eq(a, "--message-contains") {
            if i + 1 >= args.len() {
                return Err(usage_error(concat(a, " needs a value")));
            }
            assert(av[i + 1] == args@[i + 1]@);
            out.grep = Some(copy_string(&args[i + 1]));
            i = i + 2;
        } else if starts_with_dash(a) {
            return Err(usage_error(concat("unrecognized flag: ", a)));
        } else {
            path = Some(string_of(a));
            i = i + 1;
        }
    }
    match path {
        Some(p) => {
            out.path = p;
            Ok(out)
        },
        None => Err(usage_error(string_of("missing log file path"))),
    }
}

/// What a trailing boolean flag turns on.
pub open spec fn with_flag(a: ArgsView, flag: Seq<char>) -> ArgsView {
    if flag == "--json"@ {
        ArgsView { json: true, ..a }
    } else if flag == "--lines"@ {
        ArgsView { lines: true, ..a }
    } else {
        ArgsView { follow: true, ..a }
    }
}

pub open spec fn is_switch(flag: Seq<char>) -> bool {
    flag == "--json"@ || flag == "--lines"@ || flag == "--follow"@ || flag == "-f"@
}

proof fn lemma_append_switch(
    args: Seq<Seq<char>>,
    i: int,
    path: Option<Seq<char>>,
    acc: ArgsView,
    flag: Seq<char>,
)
    requires
        0 <= i <= args.len(),
        is_switch(flag),
        parse_from(args, i, path, acc) is Ok,
    ensures
        parse_from(args.push(flag), i, path, acc) == Ok::<ArgsView, Seq<char>>(
            with_flag(parse_from(args, i, path, acc)->Ok_0, flag),
        ),
    decreases args.len() - i,
{
    let b = args.push(flag);
    reveal_strlit("--json");
    reveal_strlit("--lines");
    reveal_strlit("--follow");
    reveal_strlit("-f");
    if i == args.len() {
        assert(b[i] == flag);
        assert(parse_from(b, i + 1, path, with_flag(acc, flag)) == Ok::<ArgsView, Seq<char>>(
            with_flag(parse_from(args, i, path, acc)->Ok_0, flag),
        ));
    } else {
        assert(b[i] == args[i]);
        if i + 1 < args.len() {
            assert(b[i + 1] == args[i + 1]);
        }
        let a = args[i];
        if a == "--json"@ {
            lemma_append_switch(args, i + 1, path, ArgsView { json: true, ..acc }, flag);
        } else if a == "--follow"@ || a == "-f"@ {
            lemma_append_switch(args, i + 1, path, ArgsView { follow: true, ..acc }, flag);
        } else if a == "--lines"@ {
            lemma_append_switch(args, i + 1, path, ArgsView { lines: true, ..acc }, flag);
        } else if a == "-h"@ || a == "--help"@ {
        } else if a == "--min-level"@ || a == "--level"@ {
            match level_of_token(args[i + 1]) {
                None => {},
                Some(l) => if a == "--min-level"@ {
                    lemma_append_switch(args, i + 2, path, ArgsView { min_level: Some(l), ..acc }, flag);
                } else {
                    lemma_append_switch(args, i + 2, path, ArgsView { level: Some(l), ..acc }, flag);
                },
            }
        } else if a == "--since"@ || a == "--until"@ {
            if a == "--since"@ {
                lemma_append_switch(args, i + 2, path, ArgsView { since: Some(args[i + 1]), ..acc }, flag);
            } else {
                lemma_append_switch(args, i + 2, path, ArgsView { until: Some(args[i + 1]), ..acc }, flag);
            }
        } else if a == "--grep"@ || a == "--message-contains"@ {
            lemma_append_switch(args, i + 2, path, ArgsView { grep: Some(args[i + 1]), ..acc }, flag);
        } else if a.len() > 0 && a[0] == '-' {
        } else {
            lemma_append_switch(args, i + 1, Some(a), acc, flag);
        }
    }
}

/// A switch added at the end of a command line that parses only turns its
/// option on: `--json` sets `json`, `--lines` sets `lines`, and `--follow`
/// and `-f` both set `follow`; nothing else changes.
pub proof fn lemma_trailing_switch(args: Seq<Seq<char>>, flag: Seq<char>)
    requires
        is_switch(flag),
        parse_args_spec(args) is Ok,
    ensures
        parse_args_spec(args.push(flag)) == Ok::<ArgsView, Seq<char>>(
            with_flag(parse_args_spec(args)->Ok_0, flag),
        ),
{
    lemma_append_switch(args, 0, None, default_args(), flag);
}

/// `--follow` and `-f` are the same switch: wherever a command line that
/// parses ends, adding either one gives the same result.
pub proof fn lemma_follow_spellings_agree(args: Seq<Seq<char>>)
    requires
        parse_args_spec(args) is Ok,
    ensures
        parse_args_spec(args.push("--follow"@)) == parse_args_spec(args.push("-f"@)),
        parse_args_spec(args.push("--follow"@)) is Ok,
        (parse_args_spec(args.push("--follow"@))->Ok_0).follow,
{
    reveal_strlit("--json");
    reveal_strlit("--lines");
    reveal_strlit("--follow");
    reveal_strlit("-f");
    assert("--follow"@[2] != "--json"@[2] && "--follow"@[2] != "--lines"@[2]);
    assert("-f"@.len() != "--json"@.len() && "-f"@.len() != "--lines"@.len());
    lemma_trailing_switch(args, "--follow"@);
    lemma_trailing_switch(args, "-f"@);
}

/// Whether `flag` is an option that takes the argument after it.
pub open spec fn takes_value(flag: Seq<char>, value: Seq<char>) -> bool {
    ||| (flag == "--min-level"@ || flag == "--level"@) && level_of_token(value) is Some
    ||| flag == "--since"@ || flag == "--until"@ || flag == "--grep"@ || flag == "--message-contains"@
}

/// What a trailing option with its value sets.
pub open spec fn with_value(a: ArgsView, flag: Seq<char>, value: Seq<char>) -> ArgsView {
    if flag == "--min-level"@ {
        ArgsView { min_level: level_of_token(value), ..a }
    } else if flag == "--level"@ {
        ArgsView { level: level_of_token(value), ..a }
    } else if flag == "--since"@ {
        ArgsView { since: Some(value), ..a }
    } else if flag == "--until"@ {
        ArgsView { until: Some(value), ..a }
    } else {
        ArgsView { grep: Some(value), ..a }
    }
}

proof fn lemma_flag_names_differ()
    ensures
        "--min-level"@ != "--level"@,
        "--min-level"@ != "--since"@ && "--min-level"@ != "--until"@,
        "--level"@ != "--since"@ && "--level"@ != "--until"@,
        "--since"@ != "--until"@,
        "--grep"@ != "--min-level"@ && "--grep"@ != "--level"@ && "--grep"@ != "--since"@ && "--grep"@ != "--until"@,
        "--message-contains"@ != "--min-level"@ && "--message-contains"@ != "--level"@,
        "--message-contains"@ != "--since"@ && "--message-contains"@ != "--until"@,
        "--min-level"@ != "--json"@ && "--min-level"@ != "--follow"@ && "--min-level"@ != "-f"@ && "--min-level"@ != "--lines"@ && "--min-level"@ != "-h"@ && "--min-level"@ != "--help"@,
        "--level"@ != "--json"@ && "--level"@ != "--follow"@ && "--level"@ != "-f"@ && "--level"@ != "--lines"@ && "--level"@ != "-h"@ && "--level"@ != "--help"@,
        "--since"@ != "--json"@ && "--since"@ != "--follow"@ && "--since"@ != "-f"@ && "--since"@ != "--lines"@ && "--since"@ != "-h"@ && "--since"@ != "--help"@,
        "--until"@ != "--json"@ && "--until"@ != "--follow"@ && "--until"@ != "-f"@ && "--until"@ != "--lines"@ && "--until"@ != "-h"@ && "--until"@ != "--help"@,
        "--grep"@ != "--json"@ && "--grep"@ != "--follow"@ && "--grep"@ != "-f"@ && "--grep"@ != "--lines"@ && "--grep"@ != "-h"@ && "--grep"@ != "--help"@,
        "--message-contains"@ != "--json"@ && "--message-contains"@ != "--follow"@ && "--message-contains"@ != "-f"@ && "--message-contains"@ != "--lines"@ && "--message-contains"@ != "-h"@ && "--message-contains"@ != "--help"@,
{
    reveal_strlit("--min-level");
    reveal_strlit("--level");
    reveal_strlit("--since");
    reveal_strlit("--until");
    reveal_strlit("--grep");
    reveal_strlit("--message-contains");
    reveal_strlit("--json");
    reveal_strlit("--follow");
    reveal_strlit("-f");
    reveal_strlit("--lines");
    reveal_strlit("-h");
    reveal_strlit("--help");
    assert("--min-level"@[2] != "--level"@[2]);
    assert("--min-level"@[2] != "--since"@[2] && "--min-level"@[2] != "--until"@[2]);
    assert("--level"@[2] != "--since"@[2] && "--level"@[2] != "--until"@[2]);
    assert("--since"@[2] != "--until"@[2]);
    assert("--grep"@[2] != "--min-level"@[2] && "--grep"@[2] != "--level"@[2]);
    assert("--grep"@[2] != "--since"@[2] && "--grep"@[2] != "--until"@[2]);
    assert("--message-contains"@[2] != "--level"@[2] && "--message-contains"@[2] != "--since"@[2]);
    assert("--message-contains"@[2] != "--until"@[2]);
    assert("--message-contains"@[3] != "--min-level"@[3]);
    assert("--min-level"@[2] != "--json"@[2]);
    assert("--min-level"@[2] != "--follow"@[2]);
    assert("--min-level"@[1] != "-f"@[1]);
    assert("--min-level"@[2] != "--lines"@[2]);
    assert("--min-level"@[1] != "-h"@[1]);
    assert("--min-level"@[2] != "--help"@[2]);
    assert("--level"@[2] != "--json"@[2]);
    assert("--level"@[2] != "--follow"@[2]);
    assert("--level"@[1] != "-f"@[1]);
    assert("--level"@[3] != "--lines"@[3]);
    assert("--level"@[1] != "-h"@[1]);
    assert("--level"@[2] != "--help"@[2]);
    assert("--since"@[2] != "--json"@[2]);
    assert("--since"@[2] != "--follow"@[2]);
    assert("--since"@[1] != "-f"@[1]);
    assert("--since"@[2] != "--lines"@[2]);
    assert("--since"@[1] != "-h"@[1]);
    assert("--since"@[2] != "--help"@[2]);
    assert("--until"@[2] != "--json"@[2]);
    assert("--until"@[2] != "--follow"@[2]);
    assert("--until"@[1] != "-f"@[1]);
    assert("--until"@[2] != "--lines"@[2]);
    assert("--until"@[1] != "-h"@[1]);
    assert("--until"@[2] != "--help"@[2]);
    assert("--grep"@[2] != "--json"@[2]);
    assert("--grep"@[2] != "--follow"@[2]);
    assert("--grep"@[1] != "-f"@[1]);
    assert("--grep"@[2] != "--lines"@[2]);
    assert("--grep"@[1] != "-h"@[1]);
    assert("--grep"@[2] != "--help"@[2]);
    assert("--message-contains"@[2] != "--json"@[2]);
    assert("--message-contains"@[2] != "--follow"@[2]);
    assert("--message-contains"@[1] != "-f"@[1]);
    assert("--message-contains"@[2] != "--lines"@[2]);
    assert("--message-contains"@[1] != "-h"@[1]);
    assert("--message-contains"@[2] != "--help"@[2]);
}

proof fn lemma_append_option(
    args: Seq<Seq<char>>,
    i: int,
    path: Option<Seq<char>>,
    acc: ArgsView,
    flag: Seq<char>,
    value: Seq<char>,
)
    requires
        0 <= i <= args.len(),
        takes_value(flag, value),
        parse_from(args, i, path, acc) is Ok,
    ensures
        parse_from(args.push(flag).push(value), i, path, acc) == Ok::<ArgsView, Seq<char>>(
            with_value(parse_from(args, i, path, acc)->Ok_0, flag, value),
        ),
    decreases args.len() - i,
{
    let b = args.push(flag).push(value);
    lemma_flag_names_differ();
    if i == args.len() {
        assert(b[i] == flag);
        assert(b[i + 1] == value);
        assert(b.len() == i + 2);
        let r = parse_from(args, i, path, acc)->Ok_0;
        assert(path is Some && r == ArgsView { path: path->0, ..acc });
        let next = if flag == "--min-level"@ {
            ArgsView { min_level: level_of_token(value), ..acc }
        } else if flag == "--level"@ {
            ArgsView { level: level_of_token(value), ..acc }
        } else if flag == "--since"@ {
            ArgsView { since: Some(value), ..acc }
        } else if flag == "--until"@ {
            ArgsView { until: Some(value), ..acc }
        } else {
            ArgsView { grep: Some(value), ..acc }
        };
        assert(parse_from(b, i + 2, path, next) == Ok::<ArgsView, Seq<char>>(ArgsView { path: path->0, ..next }));
        assert(parse_from(b, i, path, acc) == parse_from(b, i + 2, path, next));
    } else {
        assert(b[i] == args[i]);
        if i + 1 < args.len() {
            assert(b[i + 1] == args[i + 1]);
        }
        let a = args[i];
        if a == "--json"@ {
            lemma_append_option(args, i + 1, path, ArgsView { json: true, ..acc }, flag, value);
        } else if a == "--follow"@ || a == "-f"@ {
            lemma_append_option(args, i + 1, path, ArgsView { follow: true, ..acc }, flag, value);
        } else if a == "--lines"@ {
            lemma_append_option(args, i + 1, path, ArgsView { lines: true, ..acc }, flag, value);
        } else if a == "-h"@ || a == "--help"@ {
        } else if a == "--min-level"@ || a == "--level"@ {
            match level_of_token(args[i + 1]) {
                None => {},
                Some(l) => if a == "--min-level"@ {
                    lemma_append_option(args, i + 2, path, ArgsView { min_level: Some(l), ..acc }, flag, value);
                } else {
                    lemma_append_option(args, i + 2, path, ArgsView { level: Some(l), ..acc }, flag, value);
                },
            }
        } else if a == "--since"@ || a == "--until"@ {
            if a == "--since"@ {
                lemma_append_option(args, i + 2, path, ArgsView { since: Some(args[i + 1]), ..acc }, flag, value);
            } else {
                lemma_append_option(args, i + 2, path, ArgsView { until: Some(args[i + 1]), ..acc }, flag, value);
            }
        } else if a == "--grep"@ || a == "--message-contains"@ {
            lemma_append_option(args, i + 2, path, ArgsView { grep: Some(args[i + 1]), ..acc }, flag, value);
        } else if a.len() > 0 && a[0] == '-' {
        } else {
            lemma_append_option(args, i + 1, Some(a), acc, flag, value);
        }
    }
}

/// An option with its value added at the end of a command line that
/// parses sets just that option: `--min-level`/`--level` to the level the
/// value names, `--since`/`--until` to the value, `--grep` and
/// `--message-contains` (the same option) to the value.
pub proof fn lemma_trailing_option(args: Seq<Seq<char>>, flag: Seq<char>, value: Seq<char>)
    requires
        takes_value(flag, value),
        parse_args_spec(args) is Ok,
    ensures
        parse_args_spec(args.push(flag).push(value)) == Ok::<ArgsView, Seq<char>>(
            with_value(parse_args_spec(args)->Ok_0, flag, value),
        ),
{
    lemma_append_option(args, 0, None, default_args(), flag, value);
}

} // verus!
