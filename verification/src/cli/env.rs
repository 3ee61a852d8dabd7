//! Defaults taken from `LOGLENS_*` environment variables for the flags the
//! command line left unset.
use vstd::prelude::*;
use crate::level::{level_name, level_of_token, Level};
use super::args::{usage, with_usage, Args, ArgsView};
use crate::text::{str_eq, string_of};

verus! {

/// The values of the `LOGLENS_*` variables, `None` where one is unset.
pub struct EnvVars {
    /// `LOGLENS_JSON`
    pub json: Option<String>,
    /// `LOGLENS_FOLLOW`
    pub follow: Option<String>,
    /// `LOGLENS_LINES`
    pub lines: Option<String>,
    /// `LOGLENS_MIN_LEVEL`
    pub min_level: Option<String>,
    /// `LOGLENS_LEVEL`
    pub level: Option<String>,
    /// `LOGLENS_SINCE`
    pub since: Option<String>,
    /// `LOGLENS_UNTIL`
    pub until: Option<String>,
    /// `LOGLENS_GREP`
    pub grep: Option<String>,
}

pub struct EnvView {
    pub json: Option<Seq<char>>,
    pub follow: Option<Seq<char>>,
    pub lines: Option<Seq<char>>,
    pub min_level: Option<Seq<char>>,
    pub level: Option<Seq<char>>,
    pub since: Option<Seq<char>>,
    pub until: Option<Seq<char>>,
    pub grep: Option<Seq<char>>,
}

impl View for EnvVars {
    type V = EnvView;

    open spec fn view(&self) -> EnvView {
        EnvView {
            json: self.json.deep_view(),
            follow: self.follow.deep_view(),
            lines: self.lines.deep_view(),
            min_level: self.min_level.deep_view(),
            level: self.level.deep_view(),
            since: self.since.deep_view(),
            until: self.until.deep_view(),
            grep: self.grep.deep_view(),
        }
    }
}

/// A boolean variable is set when present with any value other than
/// empty, `0` or `false`.
pub open spec fn flag_set(value: Option<Seq<char>>) -> bool {
    match value {
        Some(v) => !(v == ""@ || v == "0"@ || v == "false"@),
        None => false,
    }
}

pub open spec fn unit_result(r: Result<(), String>) -> Result<(), Seq<char>> {
    match r {
        Ok(()) => Ok(()),
        Err(m) => Err(m@),
    }
}

/// The options after filling unset flags from the environment, and
/// whether that went through. An unrecognized level stops the filling at
/// that variable; what was filled before it stays filled.
pub open spec fn env_applied(a: ArgsView, e: EnvView) -> (ArgsView, Result<(), Seq<char>>) {
    let a1 = ArgsView {
        json: a.json || flag_set(e.json),
        follow: a.follow || flag_set(e.follow),
        lines: a.lines || flag_set(e.lines),
        ..a
    };
    if a1.min_level is None && e.min_level is Some && level_of_token(e.min_level->0) is None {
        (a1, Err(with_usage("LOGLENS_MIN_LEVEL: unrecognized level: "@ + e.min_level->0)))
    } else {
        let a2 = if a1.min_level is None && e.min_level is Some {
            ArgsView { min_level: level_of_token(e.min_level->0), ..a1 }
        } else {
            a1
        };
        if a2.level is None && e.level is Some && level_of_token(e.level->0) is None {
            (a2, Err(with_usage("LOGLENS_LEVEL: unrecognized level: "@ + e.level->0)))
        } else {
            let a3 = if a2.level is None && e.level is Some {
                ArgsView { level: level_of_token(e.level->0), ..a2 }
            } else {
                a2
            };
            (
                ArgsView {
                    since: if a3.since is None { e.since } else { a3.since },
                    until: if a3.until is None { e.until } else { a3.until },
                    grep: if a3.grep is None { e.grep } else { a3.grep },
                    ..a3
                },
                Ok(()),
            )
        }
    }
}

/// Whether a boolean variable's value counts as set.
pub fn env_flag(value: &Option<String>) -> (r: bool)
    ensures
        r == flag_set(value.deep_view()),
{
    match value {
        Some(v) => {
            let v = v.as_str();
            !(str_eq(v, "") || str_eq(v, "0") || str_eq(v, "false"))
        },
        None => false,
    }
}

fn clone_opt(value: &Option<String>) -> (r: Option<String>)
    ensures
        r.deep_view() == value.deep_view(),
{
    match value {
        Some(v) => Some(v.clone()),
        None => None,
    }
}

fn level_error(name: &str, value: &String) -> (r: String)
    ensures
        r@ == with_usage(name@ + ": unrecognized level: "@ + value@),
{
    let mut out = string_of(name);
    out.append(": unrecognized level: ");
    out.append(value.as_str());
    out.append("\n\n");
    out.append(usage().as_str());
    out
}

/// Fill in any flag the command line left unset from its matching
/// environment variable, so a shell profile or wrapper script can set
/// defaults (e.g. `LOGLENS_MIN_LEVEL=warn`) without every invocation having
/// to repeat them. A flag actually passed on the command line always wins.
pub fn apply_env_defaults(args: &mut Args, env: &EnvVars) -> (r: Result<(), String>)
    ensures
        (final(args)@, unit_result(r)) == env_applied(old(args)@, env@),
{
    if !args.json {
        args.json = env_flag(&env.json);
    }
    if !args.follow {
        args.follow = env_flag(&env.follow);
    }
    if !args.lines {
        args.lines = env_flag(&env.lines);
    }
    if args.min_level.is_none() {
        if let Some(value) = &env.min_level {
            match Level::parse(value.as_str()) {
                Some(l) => args.min_level = Some(l),
                None => {
                    proof {
                        reveal_strlit("LOGLENS_MIN_LEVEL");
                        reveal_strlit("LOGLENS_MIN_LEVEL: unrecognized level: ");
                        reveal_strlit(": unrecognized level: ");
                        assert("LOGLENS_MIN_LEVEL"@ + ": unrecognized level: "@ =~= "LOGLENS_MIN_LEVEL: unrecognized level: "@);
                    }
                    return Err(level_error("LOGLENS_MIN_LEVEL", value));
                },
            }
        }
    }
    if args.level.is_none() {
        if let Some(value) = &env.level {
            match Level::parse(value.as_str()) {
                Some(l) => args.level = Some(l),
                None => {
                    proof {
                        reveal_strlit("LOGLENS_LEVEL");
                        reveal_strlit("LOGLENS_LEVEL: unrecognized level: ");
                        reveal_strlit(": unrecognized level: ");
                        assert("LOGLENS_LEVEL"@ + ": unrecognized level: "@ =~= "LOGLENS_LEVEL: unrecognized level: "@);
                    }
                    return Err(level_error("LOGLENS_LEVEL", value));
                },
            }
        }
    }
    if args.since.is_none() {
        args.since = clone_opt(&env.since);
    }
    if args.until.is_none() {
        args.until = clone_opt(&env.until);
    }
    if args.grep.is_none() {
        args.grep = clone_opt(&env.grep);
    }
    Ok(())
}

/// A flag given on the command line is never overridden by the
/// environment.
pub proof fn lemma_command_line_wins(a: ArgsView, e: EnvView)
    ensures
        a.json ==> env_applied(a, e).0.json,
        a.follow ==> env_applied(a, e).0.follow,
        a.lines ==> env_applied(a, e).0.lines,
        a.min_level is Some ==> env_applied(a, e).0.min_level == a.min_level,
        a.level is Some ==> env_applied(a, e).0.level == a.level,
        a.since is Some ==> env_applied(a, e).0.since == a.since,
        a.until is Some ==> env_applied(a, e).0.until == a.until,
        a.grep is Some ==> env_applied(a, e).0.grep == a.grep,
        env_applied(a, e).0.path == a.path,
{
}

/// Each switch is filled from its own variable and no other: when the
/// command line leaves it off, `json` is set exactly when `LOGLENS_JSON`
/// is, `follow` exactly when `LOGLENS_FOLLOW` is, `lines` exactly when
/// `LOGLENS_LINES` is; and changing any other variable leaves it as it is.
pub proof fn lemma_switches_from_own_variable(a: ArgsView, e1: EnvView, e2: EnvView)
    ensures
        !a.json ==> env_applied(a, e1).0.json == flag_set(e1.json),
        !a.follow ==> env_applied(a, e1).0.follow == flag_set(e1.follow),
        !a.lines ==> env_applied(a, e1).0.lines == flag_set(e1.lines),
        e1.json == e2.json ==> env_applied(a, e1).0.json == env_applied(a, e2).0.json,
        e1.follow == e2.follow ==> env_applied(a, e1).0.follow == env_applied(a, e2).0.follow,
        e1.lines == e2.lines ==> env_applied(a, e1).0.lines == env_applied(a, e2).0.lines,
{
}

/// Level variables that name levels fill the unset level options with
/// those levels; the time range and message text come from their own
/// variables, and the filling goes through.
pub proof fn lemma_levels_from_own_variable(a: ArgsView, e: EnvView, l: Level, m: Level)
    ensures
        a.min_level is None && e.min_level == Some(level_name(l)) && a.level is None && e.level
            == Some(level_name(m)) ==> env_applied(a, e) == (
            ArgsView {
                json: a.json || flag_set(e.json),
                follow: a.follow || flag_set(e.follow),
                lines: a.lines || flag_set(e.lines),
                min_level: Some(l),
                level: Some(m),
                since: if a.since is None { e.since } else { a.since },
                until: if a.until is None { e.until } else { a.until },
                grep: if a.grep is None { e.grep } else { a.grep },
                ..a
            },
            Ok::<(), Seq<char>>(()),
        ),
{
    crate::level::lemma_parse_name_roundtrip(l);
    crate::level::lemma_parse_name_roundtrip(m);
}

} // verus!
