//! Classification of a trace by the color marker in its style string.
use vstd::prelude::*;
use crate::error::RoadError;

verus! {

/// Marker of the reference trace (red stroke).
pub const REFERENCE_MARKER: &'static str = "stroke:#ff0000";

/// Marker of the first group (blue stroke).
pub const GROUP_A_MARKER: &'static str = "stroke:#0000ff";

/// Marker of the second group (green stroke).
pub const GROUP_B_MARKER: &'static str = "stroke:#008000";

/// The category a trace falls in.
#[derive(Clone, Copy, Debug, PartialEq, Eq, Structural)]
pub enum TraceKind {
    Reference,
    GroupA,
    GroupB,
}

/// `m` occurs in `s` as a contiguous substring.
pub open spec fn contains(s: Seq<char>, m: Seq<char>) -> bool {
    exists|i: int| 0 <= i <= s.len() - m.len() && #[trigger] s.subrange(i, i + m.len()) == m
}

/// The category of a style: the one known marker it holds. A style with no
/// marker, or with more than one, has none.
pub open spec fn classify(s: Seq<char>) -> Result<TraceKind, RoadError> {
    let r = contains(s, REFERENCE_MARKER@);
    let a = contains(s, GROUP_A_MARKER@);
    let b = contains(s, GROUP_B_MARKER@);
    if r && !a && !b {
        Ok(TraceKind::Reference)
    } else if a && !r && !b {
        Ok(TraceKind::GroupA)
    } else if b && !r && !a {
        Ok(TraceKind::GroupB)
    } else {
        Err(RoadError::UnknownStyle)
    }
}

/// The characters of a string slice, in order.
fn chars_of(s: &str) -> (r: Vec<char>)
    ensures
        r@ == s@,
{
    let n = s.unicode_len();
    let mut r: Vec<char> = Vec::new();
    let mut i: usize = 0;
    while i < n
        invariant
            n == s@.len(),
            i <= n,
            r@ =~= s@.subrange(0, i as int),
        decreases n - i,
    {
        r.push(s.get_char(i));
        i = i + 1;
    }
    assert(r@ =~= s@);
    r
}

/// Whether `s[at..at + m.len()]` equals `m`.
fn matches_at(s: &Vec<char>, m: &Vec<char>, at: usize) -> (r: bool)
    requires
        at + m@.len() <= s@.len(),
    ensures
        r == (s@.subrange(at as int, at + m@.len()) == m@),
{
    let n = s.len();
    let mut j: usize = 0;
    while j < m.len()
        invariant
            n == s@.len(),
            at + m@.len() <= s@.len(),
            j <= m@.len(),
            forall|k: int| 0 <= k < j ==> s@[at + k] == m@[k],
        decreases m.len() - j,
    {
        if s[at + j] != m[j] {
            assert(s@.subrange(at as int, at + m@.len())[j as int] != m@[j as int]);
            return false;
        }
        j = j + 1;
    }
    assert(s@.subrange(at as int, at + m@.len()) =~= m@);
    true
}

/// Whether `marker` occurs in `style`.
pub fn contains_marker(style: &str, marker: &str) -> (r: bool)
    ensures
        r == contains(style@, marker@),
{
    let s = chars_of(style);
    let m = chars_of(marker);
    if m.len() > s.len() {
        return false;
    }
    let last = s.len() - m.len();
    let mut i: usize = 0;
    while i <= last
        invariant
            last == s@.len() - m@.len(),
            s@ == style@,
            m@ == marker@,
            forall|k: int| 0 <= k < i ==> #[trigger] s@.subrange(k, k + m@.len()) != m@,
        ensures
            forall|k: int| 0 <= k <= last ==> #[trigger] s@.subrange(k, k + m@.len()) != m@,
        decreases last + 1 - i,
    {
        if matches_at(&s, &m, i) {
            return true;
        }
        if i == last {
            break;
        }
        i = i + 1;
    }
    false
}

/// The category of a trace with the given style. Fails with `UnknownStyle`
/// unless exactly one of the three markers occurs in it.
pub fn classify_style(style: &str) -> (r: Result<TraceKind, RoadError>)
    ensures
        r == classify(style@),
{
    let r = contains_marker(style, REFERENCE_MARKER);
    let a = contains_marker(style, GROUP_A_MARKER);
    let b = contains_marker(style, GROUP_B_MARKER);
    if r && !a && !b {
        Ok(TraceKind::Reference)
    } else if a && !r && !b {
        Ok(TraceKind::GroupA)
    } else if b && !r && !a {
        Ok(TraceKind::GroupB)
    } else {
        Err(RoadError::UnknownStyle)
    }
}

} // verus!
