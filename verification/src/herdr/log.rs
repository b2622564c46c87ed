//! The recorder's log.
use crate::calendar::{date_at, date_of};
use crate::paths::{join, joined};
use crate::strings::{dec_wide, push_dec_wide};
use vstd::prelude::*;
use vstd::string::*;

verus! {

/// The log is put aside once it is this long, in bytes. One earlier log is
/// kept.
pub const MAX_BYTES: u64 = 4_194_304;

#[derive(Debug, Clone, Copy, PartialEq, Eq, Structural)]
pub enum Level {
    Info,
    Warn,
}

impl Level {
    pub open spec fn name(self) -> Seq<char> {
        match self {
            Level::Info => "info"@,
            Level::Warn => "warn"@,
        }
    }

    pub fn as_str(&self) -> (r: &'static str)
        ensures
            r@ == self.name(),
    {
        match self {
            Level::Info => "info",
            Level::Warn => "warn",
        }
    }
}

/// One thing to say in the log.
#[derive(Debug)]
pub struct Remark {
    pub level: Level,
    pub text: String,
}

/// Whether a remark says this.
pub open spec fn remarks(r: Option<Remark>, level: Level, text: Seq<char>) -> bool {
    match r {
        Some(remark) => remark.level == level && remark.text@ == text,
        None => false,
    }
}

/// Where the log goes: into a file, and to the terminal as well where `echo`
/// says so. With no file it only goes to the terminal.
#[derive(Debug)]
pub struct Log {
    pub path: Option<String>,
    pub echo: bool,
}

impl Log {
    /// The log under a state directory.
    pub fn open(state: &str, echo: bool) -> (r: Self)
        ensures
            r.path matches Some(p) && p@ == joined(joined(state@, "logs"@), "watch.log"@),
            r.echo == echo,
    {
        Log { path: Some(join(join(state, "logs").as_str(), "watch.log")), echo }
    }

    /// A log that only ever prints, and leaves nothing behind.
    pub fn to_stdout() -> (r: Self)
        ensures
            r.path is None,
            r.echo,
    {
        Log { path: None, echo: true }
    }

    pub fn path(&self) -> (r: Option<&str>)
        ensures
            crate::strings::opt_str(r) == crate::strings::opt_text(self.path),
    {
        match &self.path {
            Some(p) => Some(p.as_str()),
            None => None,
        }
    }
}

/// `2026-08-25 14:32:07Z`, for a time in Unix seconds.
pub open spec fn stamp_of(unix: u64) -> Seq<char> {
    let (y, m, d) = date_at((unix / 86_400) as nat);
    let secs = (unix % 86_400) as nat;
    dec_wide(y, 4) + "-"@ + dec_wide(m, 2) + "-"@ + dec_wide(d, 2) + " "@ + dec_wide(secs / 3_600, 2)
        + ":"@ + dec_wide((secs / 60) % 60, 2) + ":"@ + dec_wide(secs % 60, 2) + "Z"@
}

/// `2026-08-25 14:32:07Z`, for a time in Unix seconds.
pub fn stamp(unix: u64) -> (r: String)
    ensures
        r@ == stamp_of(unix),
{
    let (y, m, d): (u64, u64, u64) = date_of(unix / 86_400);
    let secs: u64 = unix % 86_400;
    let mut out: String = String::new();
    push_dec_wide(&mut out, y, 4);
    proof {
        assert(Seq::<char>::empty() + dec_wide(y as nat, 4) =~= dec_wide(y as nat, 4));
    }
    out.append("-");
    push_dec_wide(&mut out, m, 2);
    out.append("-");
    push_dec_wide(&mut out, d, 2);
    out.append(" ");
    push_dec_wide(&mut out, secs / 3_600, 2);
    out.append(":");
    push_dec_wide(&mut out, (secs / 60) % 60, 2);
    out.append(":");
    push_dec_wide(&mut out, secs % 60, 2);
    out.append("Z");
    out
}

/// One line of the log.
pub fn write(unix: u64, remark: &Remark) -> (r: String)
    ensures
        r@ == stamp_of(unix) + " "@ + remark.level.name() + " "@ + remark.text@,
{
    let mut line: String = stamp(unix);
    line.append(" ");
    line.append(remark.level.as_str());
    line.append(" ");
    line.append(remark.text.as_str());
    line
}

/// Whether a log of this many bytes is put aside before the next line.
pub fn rotate(bytes: u64) -> (r: bool)
    ensures
        r == (bytes >= MAX_BYTES),
{
    bytes >= MAX_BYTES
}

} // verus!
