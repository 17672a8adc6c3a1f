//! The logger's level handling: parsing a level name, rendering one,
//! and choosing the level the log transport is initialized with.  The
//! transport itself (the global logger, its output and colors) lives
//! outside the library.

use vstd::prelude::*;
use crate::text::{eq_ignore_ascii, lower};

verus! {

/// A log severity; `None` in an `Option<LogLevel>` stands for logging
/// switched off.
#[derive(Debug, Clone, Copy, PartialEq, Eq, Structural)]
pub enum LogLevel {
    Error,
    Warn,
    Info,
    Debug,
}

/// What a level name parses to: a level, `Some(None)` for `off`, or
/// `None` for an unrecognized name.  Matching ignores ASCII case.
pub open spec fn spec_parse_log_level(s: Seq<char>) -> Option<Option<LogLevel>> {
    if lower(s) == "error"@ {
        Some(Some(LogLevel::Error))
    } else if lower(s) == "warn"@ {
        Some(Some(LogLevel::Warn))
    } else if lower(s) == "info"@ {
        Some(Some(LogLevel::Info))
    } else if lower(s) == "debug"@ {
        Some(Some(LogLevel::Debug))
    } else if lower(s) == "off"@ {
        Some(None)
    } else {
        None
    }
}

/// Parse a level name, case-insensitively.
pub fn parse_log_level(level: &str) -> (r: Option<Option<LogLevel>>)
    ensures
        r == spec_parse_log_level(level@),
{
    proof {
        reveal_strlit("error");
        reveal_strlit("warn");
        reveal_strlit("info");
        reveal_strlit("debug");
        reveal_strlit("off");
        assert(lower("error"@) =~= "error"@);
        assert(lower("warn"@) =~= "warn"@);
        assert(lower("info"@) =~= "info"@);
        assert(lower("debug"@) =~= "debug"@);
        assert(lower("off"@) =~= "off"@);
    }
    if eq_ignore_ascii(level, "error") {
        Some(Some(LogLevel::Error))
    } else if eq_ignore_ascii(level, "warn") {
        Some(Some(LogLevel::Warn))
    } else if eq_ignore_ascii(level, "info") {
        Some(Some(LogLevel::Info))
    } else if eq_ignore_ascii(level, "debug") {
        Some(Some(LogLevel::Debug))
    } else if eq_ignore_ascii(level, "off") {
        Some(None)
    } else {
        None
    }
}

/// The name a stored level setting prints as.
pub open spec fn spec_log_level_name(level: Option<LogLevel>) -> Seq<char> {
    match level {
        Some(LogLevel::Error) => "error"@,
        Some(LogLevel::Warn) => "warn"@,
        Some(LogLevel::Info) => "info"@,
        Some(LogLevel::Debug) => "debug"@,
        None => "off"@,
    }
}

/// Render a stored level setting as its name.
pub fn log_level_name(level: Option<LogLevel>) -> (r: &'static str)
    ensures
        r@ == spec_log_level_name(level),
{
    match level {
        Some(LogLevel::Error) => "error",
        Some(LogLevel::Warn) => "warn",
        Some(LogLevel::Info) => "info",
        Some(LogLevel::Debug) => "debug",
        None => "off",
    }
}

/// The level the log transport is initialized with: an explicit
/// setting wins (and becomes the stored one); otherwise the stored
/// setting stands.  `None` is logging switched off.
pub fn effective_log_level(level: Option<Option<LogLevel>>, current: Option<LogLevel>) -> (r:
    Option<LogLevel>)
    ensures
        r == match level {
            Some(chosen) => chosen,
            None => current,
        },
{
    match level {
        Some(chosen) => chosen,
        None => current,
    }
}

/// A name that parses is rendered back as its lowercase self, and a
/// rendered setting parses back to itself: setting a level and reading
/// it returns the name that was set.
pub proof fn lemma_log_level_round_trip(s: Seq<char>, level: Option<LogLevel>)
    ensures
        spec_parse_log_level(s) matches Some(stored) ==> spec_log_level_name(stored) == lower(s),
        spec_parse_log_level(spec_log_level_name(level)) == Some(level),
{
    reveal_strlit("error");
    reveal_strlit("warn");
    reveal_strlit("info");
    reveal_strlit("debug");
    reveal_strlit("off");
    assert(lower("error"@) =~= "error"@);
    assert(lower("warn"@) =~= "warn"@);
    assert(lower("info"@) =~= "info"@);
    assert(lower("debug"@) =~= "debug"@);
    assert(lower("off"@) =~= "off"@);
    if spec_parse_log_level(s) is Some {
        assert(spec_log_level_name(spec_parse_log_level(s)->0) == lower(s));
    }
    match level {
        Some(LogLevel::Error) => {
        },
        Some(LogLevel::Warn) => {
            assert("warn"@ != "error"@) by {
                assert("warn"@.len() == 4);
            }
        },
        Some(LogLevel::Info) => {
            assert("info"@ != "error"@) by {
                assert("info"@.len() == 4);
            }
            assert("info"@ != "warn"@) by {
                assert("info"@[0] == 'i');
            }
        },
        Some(LogLevel::Debug) => {
            assert("debug"@ != "error"@) by {
                assert("debug"@[0] == 'd');
            }
            assert("debug"@ != "warn"@) by {
                assert("debug"@.len() == 5);
            }
            assert("debug"@ != "info"@) by {
                assert("debug"@.len() == 5);
            }
        },
        None => {
            assert("off"@ != "error"@) by {
                assert("off"@.len() == 3);
            }
            assert("off"@ != "warn"@) by {
                assert("off"@.len() == 3);
            }
            assert("off"@ != "info"@) by {
                assert("off"@.len() == 3);
            }
            assert("off"@ != "debug"@) by {
                assert("off"@.len() == 3);
            }
        },
    }
}

} // verus!
