use vstd::prelude::*;

use crate::text::{append_str, joined, same_str, string_of};

verus! {

pub const INFO: &'static str = "INFO";
pub const MINOR: &'static str = "MINOR";
pub const MAJOR: &'static str = "MAJOR";
pub const CRITICAL: &'static str = "CRITICAL";
pub const BLOCKER: &'static str = "BLOCKER";

/// Number of severity levels.
pub const LEVELS: usize = 5;

/// The severity levels in ascending order.
pub const ALL: [&'static str; LEVELS] = [INFO, MINOR, MAJOR, CRITICAL, BLOCKER];

/// The severity levels in ascending order.
pub open spec fn all_levels() -> Seq<Seq<char>> {
    seq![INFO@, MINOR@, MAJOR@, CRITICAL@, BLOCKER@]
}

/// Ordinal of a severity level (higher is more severe); unknown names count
/// as the lowest.
pub open spec fn rank(sev: Seq<char>) -> nat {
    if sev == INFO@ {
        0
    } else if sev == MINOR@ {
        1
    } else if sev == MAJOR@ {
        2
    } else if sev == CRITICAL@ {
        3
    } else if sev == BLOCKER@ {
        4
    } else {
        0
    }
}

/// The levels at or above `min`, in ascending order.
pub open spec fn at_or_above(min: Seq<char>) -> Seq<Seq<char>> {
    all_levels().subrange(rank(min) as int, LEVELS as int)
}

/// A string in upper case.
pub uninterp spec fn upper_of(s: Seq<char>) -> Seq<char>;

/// Relies on str::to_uppercase: the result depends on the characters alone.
#[verifier::external_body]
fn uppercase(s: &str) -> (r: String)
    ensures
        r@ == upper_of(s@),
{
    s.to_uppercase()
}

proof fn lemma_levels_distinct()
    ensures
        forall|i: int| 0 <= i < LEVELS ==> rank(#[trigger] all_levels()[i]) == i,
{
    reveal_strlit("INFO");
    reveal_strlit("MINOR");
    reveal_strlit("MAJOR");
    reveal_strlit("CRITICAL");
    reveal_strlit("BLOCKER");
    assert(INFO@.len() != MINOR@.len());
    assert(INFO@.len() != MAJOR@.len());
    assert(INFO@.len() != CRITICAL@.len());
    assert(INFO@.len() != BLOCKER@.len());
    assert(MINOR@[1] != MAJOR@[1]);
    assert(MINOR@.len() != CRITICAL@.len());
    assert(MINOR@.len() != BLOCKER@.len());
    assert(MAJOR@.len() != CRITICAL@.len());
    assert(MAJOR@.len() != BLOCKER@.len());
    assert(CRITICAL@.len() != BLOCKER@.len());
}

/// Ordinal of a severity level: INFO 0, MINOR 1, MAJOR 2, CRITICAL 3,
/// BLOCKER 4, and 0 for any other name.
pub fn ordinal(sev: &str) -> (r: usize)
    ensures
        r == rank(sev@),
        r < LEVELS,
{
    if same_str(sev, INFO) {
        0
    } else if same_str(sev, MINOR) {
        1
    } else if same_str(sev, MAJOR) {
        2
    } else if same_str(sev, CRITICAL) {
        3
    } else if same_str(sev, BLOCKER) {
        4
    } else {
        0
    }
}

/// The level of ordinal `i`.
pub fn level(i: usize) -> (r: &'static str)
    requires
        i < LEVELS,
    ensures
        r@ == all_levels()[i as int],
{
    match i {
        0 => INFO,
        1 => MINOR,
        2 => MAJOR,
        3 => CRITICAL,
        _ => BLOCKER,
    }
}

/// The levels at or above `min` (a name in upper case), comma-separated in
/// ascending order.
pub fn levels_at_or_above(min: &str) -> (r: String)
    ensures
        r@ == joined(at_or_above(min@), ','),
{
    let start = ordinal(min);
    let mut out: Vec<char> = Vec::new();
    let mut i: usize = start;
    while i < LEVELS
        invariant
            start == rank(min@),
            start <= i <= LEVELS,
            out@ == joined(all_levels().subrange(start as int, i as int), ','),
        decreases LEVELS - i,
    {
        let ghost before = all_levels().subrange(start as int, i as int);
        let ghost after = all_levels().subrange(start as int, i + 1);
        assert(after.drop_last() =~= before);
        if i > start {
            out.push(',');
        } else {
            assert(before.len() == 0);
        }
        append_str(&mut out, level(i));
        i = i + 1;
    }
    string_of(&out)
}

/// The comma-separated severities at or above a minimum severity, compared
/// without regard to case; `None` where no minimum is given.
pub fn build_severity_filter(min_severity: Option<&str>) -> (r: Option<String>)
    ensures
        min_severity is None ==> r is None,
        min_severity matches Some(m) ==> r matches Some(s) && s@ == joined(at_or_above(upper_of(m@)), ','),
{
    match min_severity {
        None => None,
        Some(m) => {
            let upper = uppercase(m);
            Some(levels_at_or_above(upper.as_str()))
        },
    }
}

/// A minimum-severity filter selects exactly the levels whose ordinal is at
/// least that of the minimum.
pub proof fn law_min_severity_selects(min: Seq<char>)
    ensures
        forall|s: Seq<char>|
            #[trigger] at_or_above(min).contains(s) <==> (all_levels().contains(s) && rank(s) >= rank(min)),
{
    lemma_levels_distinct();
    assert forall|s: Seq<char>|
        #[trigger] at_or_above(min).contains(s) <==> (all_levels().contains(s) && rank(s) >= rank(min)) by {
        let sub = at_or_above(min);
        if sub.contains(s) {
            let j = choose|j: int| 0 <= j < sub.len() && sub[j] == s;
            assert(all_levels()[rank(min) + j] == s);
        }
        if all_levels().contains(s) && rank(s) >= rank(min) {
            let k = choose|k: int| 0 <= k < all_levels().len() && all_levels()[k] == s;
            assert(rank(all_levels()[k]) == k);
            assert(sub[k - rank(min)] == s);
        }
    }
}

} // verus!
