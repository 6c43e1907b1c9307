//! What the user may configure.

use vstd::prelude::*;

verus! {

/// How times of day are shown where space is tight. The times shown are
/// close to the current time, so AM and PM are left out.
#[derive(Debug, PartialEq, Eq)]
pub enum ClockFormat {
    /// 24 hour format, such as `15:00` or ` 1:15`.
    Fmt24Hr,
    /// 12 hour format, such as ` 3:00` or ` 1:00`.
    Fmt12Hr,
    /// A format of the user's own, in strftime notation.
    Custom(String),
}

impl ClockFormat {
    /// The format in strftime notation.
    pub open spec fn strftime(self) -> Seq<char> {
        match self {
            ClockFormat::Fmt24Hr => "%k:%M"@,
            ClockFormat::Fmt12Hr => "%l:%M"@,
            ClockFormat::Custom(s) => s@,
        }
    }

    /// The format in strftime notation: hour and minute for the two
    /// built-in formats, and the user's text for a custom one.
    pub fn get_strftime(&self) -> (format: &str)
        ensures
            format@ == self.strftime(),
    {
        match self {
            Self::Fmt24Hr => "%k:%M",
            Self::Fmt12Hr => "%l:%M",
            Self::Custom(s) => s.as_str(),
        }
    }
}

impl Default for ClockFormat {
    /// The 24 hour format.
    fn default() -> (format: ClockFormat)
        ensures
            format == ClockFormat::Fmt24Hr,
    {
        ClockFormat::Fmt24Hr
    }
}

/// The configuration.
#[derive(Debug, PartialEq, Eq)]
pub struct Config {
    pub clock_format: ClockFormat,
}

impl Default for Config {
    /// The configuration of a user who has set nothing.
    fn default() -> (config: Config)
        ensures
            config.clock_format == ClockFormat::Fmt24Hr,
    {
        Config { clock_format: ClockFormat::Fmt24Hr }
    }
}

} // verus!
