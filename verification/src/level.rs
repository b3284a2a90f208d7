//! Severity levels and their tokens.

use crate::text::same_text;
use vstd::prelude::*;

verus! {

/// Severity of a record: a closed set of known levels, and `Unknown` for
/// every other token.
#[derive(Clone, Copy, Debug, PartialEq, Eq, Structural)]
pub enum Level {
    Unknown,
    Debug,
    Info,
    Warning,
    Error,
    Panic,
}

impl Level {
    /// The level that a token stands for. The match is exact and
    /// case-sensitive; any other text, the empty one too, is `Unknown`.
    pub open spec fn of_token(token: Seq<char>) -> Level {
        if token == "DEBUG"@ {
            Level::Debug
        } else if token == "INFO"@ {
            Level::Info
        } else if token == "WARN"@ {
            Level::Warning
        } else if token == "ERROR"@ {
            Level::Error
        } else if token == "PANIC"@ {
            Level::Panic
        } else {
            Level::Unknown
        }
    }

    /// The token under which a level is shown.
    pub open spec fn token(self) -> Seq<char> {
        match self {
            Level::Debug => "DEBUG"@,
            Level::Info => "INFO"@,
            Level::Warning => "WARN"@,
            Level::Error => "ERROR"@,
            Level::Panic => "PANIC"@,
            Level::Unknown => "N/A"@,
        }
    }

    pub fn from_string(level: &str) -> (r: Level)
        ensures
            r == Level::of_token(level@),
    {
        if same_text(level, "DEBUG") {
            Level::Debug
        } else if same_text(level, "INFO") {
            Level::Info
        } else if same_text(level, "WARN") {
            Level::Warning
        } else if same_text(level, "ERROR") {
            Level::Error
        } else if same_text(level, "PANIC") {
            Level::Panic
        } else {
            Level::Unknown
        }
    }

    pub fn to_string(self) -> (r: &'static str)
        ensures
            r@ == self.token(),
    {
        match self {
            Level::Debug => "DEBUG",
            Level::Info => "INFO",
            Level::Warning => "WARN",
            Level::Error => "ERROR",
            Level::Panic => "PANIC",
            Level::Unknown => "N/A",
        }
    }

    /// Every known level is read back from its own token.
    pub proof fn token_round_trip(level: Level)
        requires
            level != Level::Unknown,
        ensures
            Level::of_token(level.token()) == level,
    {
        reveal_strlit("DEBUG");
        reveal_strlit("INFO");
        reveal_strlit("WARN");
        reveal_strlit("ERROR");
        reveal_strlit("PANIC");
        assert("DEBUG"@.len() == 5 && "INFO"@.len() == 4 && "WARN"@.len() == 4);
        assert("ERROR"@[0] == 'E' && "PANIC"@[0] == 'P' && "DEBUG"@[0] == 'D');
        assert("INFO"@[0] == 'I' && "WARN"@[0] == 'W');
    }
}

} // verus!
