//! What is known about the foreground window, and when it is still the
//! captured game window.
use vstd::prelude::*;
use crate::chars::{chars_eq_ignore_ascii_case, chars_of, contains_chars, eq_ignore_ascii_case, seq_contains, to_uppercase, trim_whitespace, trim_ws, uppercase};
use crate::session::TargetIdentity;

verus! {

/// Why the foreground window could not be examined.
#[derive(Debug, Clone, Copy, PartialEq, Eq, Structural)]
pub enum TargetError {
    NoForegroundWindow,
    WindowTitleUnavailable,
    WindowStateUnavailable,
    ProcessUnavailable(u32),
    ProcessTimeUnavailable(u32),
}

/// The foreground window as examined: its identity and title, whether the
/// title names the game, and its window state.
#[derive(Debug, Clone, PartialEq, Eq)]
pub struct TargetDiagnostic {
    pub supported: bool,
    pub identity: Option<TargetIdentity>,
    pub title: String,
    pub title_matches: bool,
    pub is_window: bool,
    pub visible: bool,
    pub minimized: bool,
    pub cloaked: bool,
}

/// The diagnosed window is the expected game window and can take input.
pub open spec fn spec_foreground_matches(d: TargetDiagnostic, identity: TargetIdentity) -> bool {
    &&& d.identity == Some(identity)
    &&& d.title_matches
    &&& d.is_window
    &&& d.visible
    &&& !d.minimized
    &&& !d.cloaked
}

/// Whether the foreground (as diagnosed) is still the captured window.
pub fn validate_foreground(diagnostic: &Result<TargetDiagnostic, TargetError>, identity: &TargetIdentity) -> (r: Result<bool, TargetError>)
    ensures
        match diagnostic {
            Err(e) => r == Err::<bool, TargetError>(*e),
            Ok(d) => r == Ok::<bool, TargetError>(spec_foreground_matches(*d, *identity)),
        },
{
    match diagnostic {
        Err(e) => Err(*e),
        Ok(d) => {
            let same = match d.identity {
                Some(found) => found == *identity,
                None => false,
            };
            Ok(same && d.title_matches && d.is_window && d.visible && !d.minimized && !d.cloaked)
        },
    }
}

} // verus!

verus! {

/// A window title names the game when, upper-cased, it contains the
/// trimmed keyword upper-cased.
pub open spec fn spec_title_matches(title: Seq<char>, keyword: Seq<char>) -> bool {
    seq_contains(uppercase(title), uppercase(trim_ws(keyword)))
}

fn uppercase_chars(s: &[char]) -> (r: Vec<char>)
    ensures
        r@ == uppercase(s@),
{
    let mut out: Vec<char> = Vec::new();
    let mut i: usize = 0;
    while i < s.len()
        invariant
            i <= s@.len(),
            out@ == uppercase(s@.take(i as int)),
        decreases s.len() - i,
    {
        let upper = to_uppercase(s[i]);
        let ghost before = out@;
        let mut k: usize = 0;
        while k < upper.len()
            invariant
                k <= upper@.len(),
                out@ == before + upper@.take(k as int),
            decreases upper.len() - k,
        {
            out.push(upper[k]);
            assert(before + upper@.take(k + 1) =~= (before + upper@.take(k as int)).push(upper@[k as int]));
            k = k + 1;
        }
        assert(upper@.take(upper@.len() as int) =~= upper@);
        assert(s@.take(i + 1).drop_last() =~= s@.take(i as int));
        i = i + 1;
    }
    assert(s@.take(s@.len() as int) =~= s@);
    out
}

/// Whether a window title names the game, as the diagnostic decides it.
pub fn title_matches_keyword(title: &str, keyword: &str) -> (r: bool)
    ensures
        r == spec_title_matches(title@, keyword@),
{
    let upper_title = uppercase_chars(chars_of(title).as_slice());
    let trimmed = trim_whitespace(chars_of(keyword).as_slice());
    let upper_keyword = uppercase_chars(trimmed.as_slice());
    contains_chars(upper_title.as_slice(), upper_keyword.as_slice())
}

/// The diagnostic of a window from what Windows reported about it.
pub fn diagnostic_for(
    identity: TargetIdentity,
    title: String,
    title_keyword: &str,
    is_window: bool,
    visible: bool,
    minimized: bool,
    cloaked: bool,
) -> (r: TargetDiagnostic)
    ensures
        r.supported,
        r.identity == Some(identity),
        r.title_matches == spec_title_matches(title@, title_keyword@),
        r.title == title,
        r.is_window == is_window,
        r.visible == visible,
        r.minimized == minimized,
        r.cloaked == cloaked,
{
    let title_matches = title_matches_keyword(title.as_str(), title_keyword);
    TargetDiagnostic { supported: true, identity: Some(identity), title, title_matches, is_window, visible, minimized, cloaked }
}

/// Whether the diagnostic is tried again after `error` on attempt
/// `attempt` (counted from 0): a window whose owner process reads as 0 is
/// often still starting, so up to four more attempts follow.
pub fn retry_diagnostic(error: TargetError, attempt: u32) -> (r: bool)
    ensures
        r == (error == TargetError::ProcessUnavailable(0) && attempt < 4),
{
    match error {
        TargetError::ProcessUnavailable(pid) => pid == 0 && attempt < 4,
        _ => false,
    }
}

/// The window class of the game.
pub const HD2_WINDOW_CLASS: &'static str = "stingray_window";
/// The executable name of the game.
pub const HD2_PROCESS_NAME: &'static str = "helldivers2.exe";

/// A window looks like the game when its class is the game's (ignoring
/// ASCII case) or its upper-cased title contains `HELLDIVERS`.
pub open spec fn spec_looks_like_hd2(class: Seq<char>, title: Seq<char>) -> bool {
    eq_ignore_ascii_case(class, HD2_WINDOW_CLASS@) || seq_contains(uppercase(title), "HELLDIVERS"@)
}

pub fn looks_like_hd2_window(class: &str, title: &str) -> (r: bool)
    ensures
        r == spec_looks_like_hd2(class@, title@),
{
    chars_eq_ignore_ascii_case(chars_of(class).as_slice(), chars_of(HD2_WINDOW_CLASS).as_slice())
        || contains_chars(uppercase_chars(chars_of(title).as_slice()).as_slice(), chars_of("HELLDIVERS").as_slice())
}

/// Whether a process executable is the game's (ignoring ASCII case).
pub fn is_hd2_process_name(exe: &str) -> (r: bool)
    ensures
        r == eq_ignore_ascii_case(exe@, HD2_PROCESS_NAME@),
{
    chars_eq_ignore_ascii_case(chars_of(exe).as_slice(), chars_of(HD2_PROCESS_NAME).as_slice())
}

/// The last-resort owner of a window whose owner Windows would not tell:
/// the game process, but only for a window that looks like the game and
/// only when exactly one game process runs. `process_ids` are the running
/// processes with the game's executable name.
pub fn process_name_owner(class: &str, title: &str, process_ids: &[u32]) -> (r: Result<u32, TargetError>)
    ensures
        r is Ok <==> spec_looks_like_hd2(class@, title@) && process_ids@.len() == 1 && process_ids@[0] != 0,
        r matches Ok(pid) ==> pid == process_ids@[0],
        r is Err ==> r == Err::<u32, TargetError>(TargetError::ProcessUnavailable(0)),
{
    if !looks_like_hd2_window(class, title) {
        return Err(TargetError::ProcessUnavailable(0));
    }
    if process_ids.len() == 1 && process_ids[0] != 0 {
        Ok(process_ids[0])
    } else {
        Err(TargetError::ProcessUnavailable(0))
    }
}

} // verus!
