//! Log levels, their names and their order of severity.
use vstd::prelude::*;
use crate::text::{chars_equal, chars_of};

verus! {

#[derive(Debug, Clone, Copy, PartialEq, Eq, Structural, PartialOrd, Ord)]
pub enum Level {
    Trace,
    Debug,
    Info,
    Warn,
    Error,
}

/// Severity rank: `Trace` lowest, `Error` highest.
pub open spec fn rank(l: Level) -> int {
    match l {
        Level::Trace => 0,
        Level::Debug => 1,
        Level::Info => 2,
        Level::Warn => 3,
        Level::Error => 4,
    }
}

/// The canonical (upper-case) name of a level.
pub open spec fn level_name(l: Level) -> Seq<char> {
    match l {
        Level::Trace => "TRACE"@,
        Level::Debug => "DEBUG"@,
        Level::Info => "INFO"@,
        Level::Warn => "WARN"@,
        Level::Error => "ERROR"@,
    }
}

/// The level a token names: the upper- or lower-case name, with
/// `WARNING`/`warning` as aliases of `WARN`.
pub open spec fn level_of_token(t: Seq<char>) -> Option<Level> {
    if t == "TRACE"@ || t == "trace"@ {
        Some(Level::Trace)
    } else if t == "DEBUG"@ || t == "debug"@ {
        Some(Level::Debug)
    } else if t == "INFO"@ || t == "info"@ {
        Some(Level::Info)
    } else if t == "WARN"@ || t == "WARNING"@ || t == "warn"@ || t == "warning"@ {
        Some(Level::Warn)
    } else if t == "ERROR"@ || t == "error"@ {
        Some(Level::Error)
    } else {
        None
    }
}

fn is_word(token: &[char], word: &str) -> (r: bool)
    ensures
        r == (token@ == word@),
{
    let w = chars_of(word);
    chars_equal(token, w.as_slice())
}

impl Level {
    /// The level a token names (see `level_of_token`).
    pub(crate) fn from_token(token: &[char]) -> (r: Option<Level>)
        ensures
            r == level_of_token(token@),
    {
        if is_word(token, "TRACE") || is_word(token, "trace") {
            Some(Level::Trace)
        } else if is_word(token, "DEBUG") || is_word(token, "debug") {
            Some(Level::Debug)
        } else if is_word(token, "INFO") || is_word(token, "info") {
            Some(Level::Info)
        } else if is_word(token, "WARN") || is_word(token, "WARNING") || is_word(token, "warn")
            || is_word(token, "warning") {
            Some(Level::Warn)
        } else if is_word(token, "ERROR") || is_word(token, "error") {
            Some(Level::Error)
        } else {
            None
        }
    }

    /// Parse a level name from a CLI argument. Accepts the same spellings
    /// as line parsing (including "warning" as an alias for "warn").
    pub fn parse(name: &str) -> (r: Option<Level>)
        ensures
            r == level_of_token(name@),
    {
        let v = chars_of(name);
        Level::from_token(v.as_slice())
    }

    pub fn as_str(&self) -> (r: &'static str)
        ensures
            r@ == level_name(*self),
    {
        match self {
            Level::Trace => "TRACE",
            Level::Debug => "DEBUG",
            Level::Info => "INFO",
            Level::Warn => "WARN",
            Level::Error => "ERROR",
        }
    }

    /// Severity rank: `Trace` is 0, `Error` is 4.
    pub fn rank(&self) -> (r: u8)
        ensures
            r == rank(*self),
    {
        match self {
            Level::Trace => 0,
            Level::Debug => 1,
            Level::Info => 2,
            Level::Warn => 3,
            Level::Error => 4,
        }
    }
}

/// A level's own name parses back to that level.
pub proof fn lemma_parse_name_roundtrip(l: Level)
    ensures
        level_of_token(level_name(l)) == Some(l),
{
    reveal_strlit("TRACE");
    reveal_strlit("trace");
    reveal_strlit("DEBUG");
    reveal_strlit("debug");
    reveal_strlit("INFO");
    reveal_strlit("info");
    reveal_strlit("WARN");
    reveal_strlit("WARNING");
    reveal_strlit("warn");
    reveal_strlit("warning");
    reveal_strlit("ERROR");
    reveal_strlit("error");
    match l {
        Level::Trace => {},
        Level::Debug => {
            assert("DEBUG"@ != "TRACE"@ && "DEBUG"@ != "trace"@) by {
                assert("DEBUG"@[0] != "TRACE"@[0]);
                assert("DEBUG"@[0] != "trace"@[0]);
            }
        },
        Level::Info => {
            assert("INFO"@ != "TRACE"@ && "INFO"@ != "trace"@ && "INFO"@ != "DEBUG"@ && "INFO"@ != "debug"@) by {
                assert("INFO"@[0] != "TRACE"@[0]);
                assert("INFO"@[0] != "trace"@[0]);
                assert("INFO"@[0] != "DEBUG"@[0]);
                assert("INFO"@[0] != "debug"@[0]);
            }
        },
        Level::Warn => {
            assert("WARN"@[0] != "TRACE"@[0]);
            assert("WARN"@[0] != "trace"@[0]);
            assert("WARN"@[0] != "DEBUG"@[0]);
            assert("WARN"@[0] != "debug"@[0]);
            assert("WARN"@[0] != "INFO"@[0]);
            assert("WARN"@[0] != "info"@[0]);
        },
        Level::Error => {
            assert("ERROR"@[0] != "TRACE"@[0]);
            assert("ERROR"@[0] != "trace"@[0]);
            assert("ERROR"@[0] != "DEBUG"@[0]);
            assert("ERROR"@[0] != "debug"@[0]);
            assert("ERROR"@[0] != "INFO"@[0]);
            assert("ERROR"@[0] != "info"@[0]);
            assert("ERROR"@[0] != "WARN"@[0]);
            assert("ERROR"@[0] != "WARNING"@[0]);
            assert("ERROR"@[0] != "warn"@[0]);
            assert("ERROR"@[0] != "warning"@[0]);
        },
    }
}

/// Severity order is the declaration order, and distinct levels have
/// distinct ranks.
pub proof fn lemma_rank_injective(a: Level, b: Level)
    ensures
        rank(a) == rank(b) <==> a == b,
        0 <= rank(a) <= 4,
{
}

/// Severity rises from `Trace` through `Debug`, `Info` and `Warn` to
/// `Error`.
pub proof fn lemma_severity_order()
    ensures
        rank(Level::Trace) < rank(Level::Debug),
        rank(Level::Debug) < rank(Level::Info),
        rank(Level::Info) < rank(Level::Warn),
        rank(Level::Warn) < rank(Level::Error),
{
}

} // verus!
