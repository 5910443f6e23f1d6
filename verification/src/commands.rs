//! The closed set of commands a caller can issue, and the parsing of a
//! command word. The command text is parsed once, at the boundary; the
//! queue itself never branches on raw text.

use vstd::prelude::*;
use vstd::string::StrSliceExecFns;

verus! {

/// One of the recognized commands.
#[derive(Debug, Copy, Clone)]
pub enum Commands {
    /// Show the current line without changing it.
    List,
    /// Join the queue at the tail.
    Get,
    /// Leave the queue from wherever one stands.
    Drop,
    /// Step one position back, yielding to the immediate successor.
    AfterYou,
    /// Barge to position 1, directly behind the holder.
    Barge,
    /// Forcibly take the holder position.
    Steal,
}

/// Whether `s` spells a command word up to ASCII case: the same length,
/// and at each position either the letter of `lower` or the letter of
/// `upper`.
pub open spec fn matches_ci(s: Seq<char>, lower: Seq<char>, upper: Seq<char>) -> bool {
    s.len() == lower.len() && forall|i: int|
        0 <= i < s.len() ==> s[i] == lower[i] || s[i] == upper[i]
}

/// Which command, if any, the text `s` names, ignoring ASCII case.
pub open spec fn spec_parse(s: Seq<char>) -> Option<Commands> {
    if matches_ci(s, "list"@, "LIST"@) {
        Some(Commands::List)
    } else if matches_ci(s, "get"@, "GET"@) {
        Some(Commands::Get)
    } else if matches_ci(s, "drop"@, "DROP"@) {
        Some(Commands::Drop)
    } else if matches_ci(s, "afteryou"@, "AFTERYOU"@) {
        Some(Commands::AfterYou)
    } else if matches_ci(s, "barge"@, "BARGE"@) {
        Some(Commands::Barge)
    } else if matches_ci(s, "steal"@, "STEAL"@) {
        Some(Commands::Steal)
    } else {
        None
    }
}

/// Compares `s` against a command word given in its lowercase and
/// uppercase spellings, position by position.
fn eq_ignore_case(s: &str, lower: &str, upper: &str) -> (r: bool)
    requires
        lower@.len() == upper@.len(),
    ensures
        r == matches_ci(s@, lower@, upper@),
{
    let n = s.unicode_len();
    if n != lower.unicode_len() {
        return false;
    }
    let mut i: usize = 0;
    while i < n
        invariant
            s@.len() == n,
            lower@.len() == n,
            upper@.len() == n,
            i <= n,
            forall|k: int| 0 <= k < i ==> s@[k] == lower@[k] || s@[k] == upper@[k],
        decreases n - i,
    {
        let c = s.get_char(i);
        if c != lower.get_char(i) && c != upper.get_char(i) {
            proof {
                assert(!(s@[i as int] == lower@[i as int] || s@[i as int] == upper@[i as int]));
            }
            return false;
        }
        i = i + 1;
    }
    true
}

impl Commands {
    /// Parses a command word, ignoring ASCII case. `None` means the text
    /// names no known command, and the caller answers with help text.
    pub fn parse(s: &str) -> (r: Option<Commands>)
        ensures
            r == spec_parse(s@),
    {
        proof {
            reveal_strlit("list");
            reveal_strlit("LIST");
            reveal_strlit("get");
            reveal_strlit("GET");
            reveal_strlit("drop");
            reveal_strlit("DROP");
            reveal_strlit("afteryou");
            reveal_strlit("AFTERYOU");
            reveal_strlit("barge");
            reveal_strlit("BARGE");
            reveal_strlit("steal");
            reveal_strlit("STEAL");
        }
        if eq_ignore_case(s, "list", "LIST") {
            Some(Commands::List)
        } else if eq_ignore_case(s, "get", "GET") {
            Some(Commands::Get)
        } else if eq_ignore_case(s, "drop", "DROP") {
            Some(Commands::Drop)
        } else if eq_ignore_case(s, "afteryou", "AFTERYOU") {
            Some(Commands::AfterYou)
        } else if eq_ignore_case(s, "barge", "BARGE") {
            Some(Commands::Barge)
        } else if eq_ignore_case(s, "steal", "STEAL") {
            Some(Commands::Steal)
        } else {
            None
        }
    }
}

} // verus!
