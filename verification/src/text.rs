//! Character-level helpers for the textual parts of the protocol.
use vstd::prelude::*;

verus! {

/// `String::push` appends one character to the end of the string.
pub assume_specification[ String::push ](s: &mut String, ch: char)
    ensures
        final(s)@ == old(s)@.push(ch),
;

/// Whether `pat` stands in `s` at position `i`.
pub open spec fn occurs_at(s: Seq<char>, pat: Seq<char>, i: int) -> bool {
    &&& 0 <= i
    &&& i + pat.len() <= s.len()
    &&& s.subrange(i, i + pat.len()) == pat
}

/// The first position at or behind `from` at which `pat` stands in `s`.
pub open spec fn first_occurrence_from(s: Seq<char>, pat: Seq<char>, from: int) -> Option<int>
    decreases s.len() - from,
{
    if from < 0 || from + pat.len() > s.len() {
        None
    } else if occurs_at(s, pat, from) {
        Some(from)
    } else if from >= s.len() {
        None
    } else {
        first_occurrence_from(s, pat, from + 1)
    }
}

/// The first position at which `pat` stands in `s`.
pub open spec fn first_occurrence(s: Seq<char>, pat: Seq<char>) -> Option<int> {
    first_occurrence_from(s, pat, 0)
}

/// `s` with the first occurrence of `pat` replaced by `to` and every other
/// character unchanged; `s` itself where `pat` does not occur.
pub open spec fn replace_first(s: Seq<char>, pat: Seq<char>, to: Seq<char>) -> Seq<char> {
    match first_occurrence(s, pat) {
        Some(i) => s.take(i) + to + s.skip(i + pat.len()),
        None => s,
    }
}

/// `first_occurrence_from` finds a position at which the pattern stands and
/// before which, from `from` on, it does not; or it stands nowhere from
/// `from` on.
pub proof fn lemma_first_occurrence(s: Seq<char>, pat: Seq<char>, from: int)
    requires
        0 <= from,
    ensures
        match first_occurrence_from(s, pat, from) {
            Some(i) => from <= i && occurs_at(s, pat, i) && forall|j: int|
                from <= j < i ==> !occurs_at(s, pat, j),
            None => forall|j: int| from <= j ==> !occurs_at(s, pat, j),
        },
    decreases s.len() - from,
{
    if from + pat.len() <= s.len() && !occurs_at(s, pat, from) && from < s.len() {
        lemma_first_occurrence(s, pat, from + 1);
    }
}

/// The decimal digits of `n`.
pub open spec fn decimal(n: nat) -> Seq<char>
    decreases n,
{
    if n < 10 {
        seq![('0' as nat + n) as char]
    } else {
        decimal(n / 10).push(('0' as nat + n % 10) as char)
    }
}

/// Appends the decimal digits of `n` to `out`.
pub fn push_decimal(out: &mut Vec<char>, n: u8)
    ensures
        final(out)@ == old(out)@ + decimal(n as nat),
{
    reveal_with_fuel(decimal, 3);
    if n >= 100 {
        out.push((48 + n / 100) as char);
    }
    if n >= 10 {
        out.push((48 + n / 10 % 10) as char);
    }
    out.push((48 + n % 10) as char);
    assert(out@ =~= old(out)@ + decimal(n as nat));
}

/// The characters of `s`, in order.
pub fn chars_of(s: &str) -> (chars: Vec<char>)
    ensures
        chars@ == s@,
{
    let mut chars: Vec<char> = Vec::new();
    for c in it: s.chars()
        invariant
            chars@ == it.seq().take(it.index() as int),
            it.seq() == s@,
    {
        chars.push(c);
    }
    chars
}

/// The string made of `chars`.
pub fn string_of(chars: &Vec<char>) -> (s: String)
    ensures
        s@ == chars@,
{
    let mut s = String::new();
    let mut i: usize = 0;
    while i < chars.len()
        invariant
            i <= chars.len(),
            s@ == chars@.take(i as int),
        decreases chars.len() - i,
    {
        s.push(chars[i]);
        i += 1;
    }
    s
}

/// Whether `pat` stands in `s` at position `at`.
fn matches_at(s: &Vec<char>, at: usize, pat: &Vec<char>) -> (found: bool)
    ensures
        found == occurs_at(s@, pat@, at as int),
{
    if at > s.len() || pat.len() > s.len() - at {
        return false;
    }
    let mut j: usize = 0;
    while j < pat.len()
        invariant
            at <= s.len(),
            pat.len() <= s.len() - at,
            j <= pat.len(),
            forall|k: int| 0 <= k < j ==> pat@[k] == s@[at + k],
        decreases pat.len() - j,
    {
        if s[at + j] != pat[j] {
            assert(s@.subrange(at as int, at + pat@.len())[j as int] == s@[at + j]);
            return false;
        }
        j += 1;
    }
    assert(pat@ =~= s@.subrange(at as int, at + pat@.len()));
    true
}

/// The first position at or behind `from` at which `pat` stands in `s`.
pub fn find(s: &Vec<char>, pat: &Vec<char>, from: usize) -> (found: Option<usize>)
    ensures
        match found {
            Some(i) => first_occurrence_from(s@, pat@, from as int) == Some(i as int),
            None => first_occurrence_from(s@, pat@, from as int) is None,
        },
        found matches Some(i) ==> from <= i && i + pat@.len() <= s@.len(),
{
    let mut i: usize = from;
    while i <= s.len() && pat.len() <= s.len() - i
        invariant
            from <= i,
            first_occurrence_from(s@, pat@, i as int) == first_occurrence_from(
                s@,
                pat@,
                from as int,
            ),
        decreases s.len() - i,
    {
        if matches_at(s, i, pat) {
            return Some(i);
        }
        if i == s.len() {
            return None;
        }
        i += 1;
    }
    None
}

/// Appends the elements of `tail` from position `from` up to `to` to `out`.
pub fn extend(out: &mut Vec<char>, tail: &Vec<char>, from: usize, to: usize)
    requires
        from <= to <= tail.len(),
    ensures
        final(out)@ == old(out)@ + tail@.subrange(from as int, to as int),
{
    let mut k: usize = from;
    assert(out@ =~= old(out)@ + tail@.subrange(from as int, k as int));
    while k < to
        invariant
            from <= k <= to <= tail.len(),
            out@ == old(out)@ + tail@.subrange(from as int, k as int),
        decreases to - k,
    {
        out.push(tail[k]);
        assert(out@ =~= old(out)@ + tail@.subrange(from as int, k + 1));
        k += 1;
    }
}

/// Replaces the first occurrence of `pat` in `s` by `to`.
pub fn replace(s: &Vec<char>, pat: &Vec<char>, to: &Vec<char>) -> (out: Vec<char>)
    ensures
        out@ == replace_first(s@, pat@, to@),
{
    let mut out: Vec<char> = Vec::new();
    let len = s.len();
    match find(s, pat, 0) {
        Some(i) => {
            extend(&mut out, s, 0, i);
            extend(&mut out, to, 0, to.len());
            extend(&mut out, s, i + pat.len(), len);
            assert(to@.subrange(0, to@.len() as int) =~= to@);
            assert(out@ =~= s@.take(i as int) + to@ + s@.skip(i + pat@.len()));
        },
        None => {
            extend(&mut out, s, 0, s.len());
            assert(out@ =~= s@);
        },
    }
    out
}

} // verus!
