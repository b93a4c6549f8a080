//! The text operations of the chat's file tools: the edit that replaces a
//! piece of text, and the window of lines that a read returns.

use vstd::prelude::*;
use crate::text::{chars_of, push_char, push_range};

verus! {

/// Whether `pat` occurs in `s` (the empty text occurs in every text).
pub open spec fn occurs(s: Seq<char>, pat: Seq<char>) -> bool
    decreases s.len(),
{
    if pat.len() <= s.len() && s.take(pat.len() as int) == pat {
        true
    } else if s.len() == 0 {
        false
    } else {
        occurs(s.skip(1), pat)
    }
}

/// `s` with its first occurrence of `pat` replaced by `by`, as
/// `str::replacen(pat, by, 1)` gives it; `s` itself when `pat` does not occur.
pub open spec fn replace_first(s: Seq<char>, pat: Seq<char>, by: Seq<char>) -> Seq<char>
    decreases s.len(),
{
    if pat.len() <= s.len() && s.take(pat.len() as int) == pat {
        by + s.skip(pat.len() as int)
    } else if s.len() == 0 {
        s
    } else {
        seq![s[0]] + replace_first(s.skip(1), pat, by)
    }
}

/// `s` with every occurrence of `pat` replaced by `by`, as `str::replace`
/// gives it: occurrences are taken from the left and do not overlap; an
/// empty `pat` puts `by` before every character and at the end.
pub open spec fn replace_every(s: Seq<char>, pat: Seq<char>, by: Seq<char>) -> Seq<char>
    decreases s.len(),
{
    if pat.len() == 0 {
        if s.len() == 0 {
            by
        } else {
            by + seq![s[0]] + replace_every(s.skip(1), pat, by)
        }
    } else if s.len() == 0 {
        Seq::empty()
    } else if pat.len() <= s.len() && s.take(pat.len() as int) == pat {
        by + replace_every(s.skip(pat.len() as int), pat, by)
    } else {
        seq![s[0]] + replace_every(s.skip(1), pat, by)
    }
}

/// Whether `pat` stands in `s` at position `i`.
pub open spec fn found_at(s: Seq<char>, pat: Seq<char>, i: int) -> bool {
    0 <= i && i + pat.len() <= s.len() && s.subrange(i, i + pat.len()) == pat
}

/// Whether `i` is the first position at which `pat` stands in `s`.
pub open spec fn first_found_at(s: Seq<char>, pat: Seq<char>, i: int) -> bool {
    found_at(s, pat, i) && forall|k: int| 0 <= k < i ==> !found_at(s, pat, k)
}

proof fn lemma_found_at_skip(s: Seq<char>, pat: Seq<char>, i: int)
    requires
        s.len() > 0,
        0 <= i,
    ensures
        found_at(s.skip(1), pat, i) == found_at(s, pat, i + 1),
{
    if 0 <= i && i + pat.len() <= s.len() - 1 {
        assert(s.skip(1).subrange(i, i + pat.len()) =~= s.subrange(i + 1, i + 1 + pat.len()));
    }
}

proof fn lemma_found_at_zero(s: Seq<char>, pat: Seq<char>)
    ensures
        found_at(s, pat, 0) == (pat.len() <= s.len() && s.take(pat.len() as int) == pat),
{
    if pat.len() <= s.len() {
        assert(s.subrange(0, pat.len() as int) =~= s.take(pat.len() as int));
    }
}

/// `pat` occurs in `s` exactly when it stands at some position of `s`.
pub proof fn lemma_occurs_iff_found(s: Seq<char>, pat: Seq<char>)
    ensures
        occurs(s, pat) <==> exists|i: int| found_at(s, pat, i),
    decreases s.len(),
{
    lemma_found_at_zero(s, pat);
    if pat.len() <= s.len() && s.take(pat.len() as int) == pat {
        assert(found_at(s, pat, 0));
    } else if s.len() == 0 {
        if exists|i: int| found_at(s, pat, i) {
            let i = choose|i: int| found_at(s, pat, i);
            assert(pat.len() == 0 && i == 0);
            assert(s.take(0) =~= pat);
        }
    } else {
        lemma_occurs_iff_found(s.skip(1), pat);
        if occurs(s.skip(1), pat) {
            let i = choose|i: int| found_at(s.skip(1), pat, i);
            lemma_found_at_skip(s, pat, i);
        }
        if exists|i: int| found_at(s, pat, i) {
            let i = choose|i: int| found_at(s, pat, i);
            assert(i != 0);
            lemma_found_at_skip(s, pat, i - 1);
        }
    }
}

/// Where `pat` first stands in `s` at position `i`, the first replacement
/// puts `by` in its place and keeps the text before and after it: the
/// result is `s[..i] + by + s[i + |pat|..]`.
pub proof fn lemma_replace_first_at_first_match(s: Seq<char>, pat: Seq<char>, by: Seq<char>, i: int)
    requires
        first_found_at(s, pat, i),
    ensures
        replace_first(s, pat, by) == s.take(i) + by + s.skip(i + pat.len()),
    decreases i,
{
    lemma_found_at_zero(s, pat);
    if i == 0 {
        assert(s.take(0) + by + s.skip(pat.len() as int) =~= by + s.skip(pat.len() as int));
    } else {
        assert(!found_at(s, pat, 0));
        assert(s.len() > 0);
        let t = s.skip(1);
        lemma_found_at_skip(s, pat, i - 1);
        assert forall|k: int| 0 <= k < i - 1 implies !found_at(t, pat, k) by {
            lemma_found_at_skip(s, pat, k);
            assert(!found_at(s, pat, k + 1));
        }
        lemma_replace_first_at_first_match(t, pat, by, i - 1);
        assert(seq![s[0]] + (t.take(i - 1) + by + t.skip(i - 1 + pat.len())) =~= s.take(i) + by + s.skip(
            i + pat.len(),
        ));
    }
}

/// Where `pat` does not stand anywhere in `s`, neither replacement changes `s`.
pub proof fn lemma_replace_without_match(s: Seq<char>, pat: Seq<char>, by: Seq<char>)
    requires
        forall|k: int| !found_at(s, pat, k),
    ensures
        replace_first(s, pat, by) == s,
        replace_every(s, pat, by) == s,
    decreases s.len(),
{
    lemma_found_at_zero(s, pat);
    assert(!found_at(s, pat, 0));
    if pat.len() == 0 {
        assert(s.subrange(0, 0) =~= pat);
    }
    if s.len() > 0 {
        let t = s.skip(1);
        assert forall|k: int| !found_at(t, pat, k) by {
            if k >= 0 {
                lemma_found_at_skip(s, pat, k);
            }
        }
        lemma_replace_without_match(t, pat, by);
        assert(seq![s[0]] + t =~= s);
    }
}

/// Every replacement of a non-empty `pat`: where `pat` first stands in `s`
/// at position `i`, the result is `s[..i] + by` followed by every
/// replacement in the rest of `s` after that occurrence.
pub proof fn lemma_replace_every_at_first_match(s: Seq<char>, pat: Seq<char>, by: Seq<char>, i: int)
    requires
        pat.len() > 0,
        first_found_at(s, pat, i),
    ensures
        replace_every(s, pat, by) == s.take(i) + by + replace_every(s.skip(i + pat.len()), pat, by),
    decreases i,
{
    lemma_found_at_zero(s, pat);
    if i == 0 {
        assert(s.take(0) + by + replace_every(s.skip(pat.len() as int), pat, by) =~= by + replace_every(
            s.skip(pat.len() as int),
            pat,
            by,
        ));
    } else {
        assert(!found_at(s, pat, 0));
        let t = s.skip(1);
        lemma_found_at_skip(s, pat, i - 1);
        assert forall|k: int| 0 <= k < i - 1 implies !found_at(t, pat, k) by {
            lemma_found_at_skip(s, pat, k);
            assert(!found_at(s, pat, k + 1));
        }
        lemma_replace_every_at_first_match(t, pat, by, i - 1);
        assert(t.skip(i - 1 + pat.len()) =~= s.skip(i + pat.len()));
        assert(seq![s[0]] + (t.take(i - 1) + by) =~= s.take(i) + by);
    }
}

/// Replacing the empty text puts `by` at the start and after every
/// character: for the empty text the result is `by`, and one more
/// character `c` at the end of `s` adds `c` and then `by` to the result.
pub proof fn lemma_replace_every_empty_pattern(s: Seq<char>, c: char, by: Seq<char>)
    ensures
        replace_every(Seq::<char>::empty(), Seq::<char>::empty(), by) == by,
        replace_every(s.push(c), Seq::<char>::empty(), by) == replace_every(s, Seq::<char>::empty(), by) + seq![c]
            + by,
    decreases s.len(),
{
    let e = Seq::<char>::empty();
    if s.len() == 0 {
        assert(s.push(c).skip(1) =~= e);
        assert(s.push(c)[0] == c);
        assert(by + seq![c] + by =~= by + seq![c] + replace_every(e, e, by));
    } else {
        lemma_replace_every_empty_pattern(s.skip(1), c, by);
        assert(s.push(c).skip(1) =~= s.skip(1).push(c));
        assert(s.push(c)[0] == s[0]);
        assert(by + seq![s[0]] + (replace_every(s.skip(1), e, by) + seq![c] + by) =~= (by + seq![s[0]]
            + replace_every(s.skip(1), e, by)) + seq![c] + by);
    }
}

/// Whether `pat` stands in `cs` at position `i`.
fn matches_at(cs: &Vec<char>, i: usize, pat: &Vec<char>) -> (r: bool)
    requires
        i <= cs.len(),
    ensures
        r == (pat.len() <= cs@.skip(i as int).len() && cs@.skip(i as int).take(pat.len() as int)
            == pat@),
{
    let ghost s = cs@.skip(i as int);
    if pat.len() > cs.len() - i {
        return false;
    }
    let mut j: usize = 0;
    while j < pat.len()
        invariant
            j <= pat.len(),
            i + pat.len() <= cs.len(),
            s == cs@.skip(i as int),
            forall|k: int| 0 <= k < j ==> cs@[i + k] == pat@[k],
        decreases pat.len() - j,
    {
        if cs[i + j] != pat[j] {
            assert(s.take(pat.len() as int)[j as int] != pat@[j as int]);
            return false;
        }
        j = j + 1;
    }
    assert(s.take(pat.len() as int) =~= pat@);
    true
}

/// The first replacement, and whether `pat` occurs at all.
fn replace_first_chars(cs: &Vec<char>, pat: &Vec<char>, by: &str) -> (r: (String, bool))
    ensures
        r.0@ == replace_first(cs@, pat@, by@),
        r.1 == occurs(cs@, pat@),
{
    let n = cs.len();
    let mut out = String::new();
    let mut i: usize = 0;
    assert(cs@.skip(0) =~= cs@);
    loop
        invariant
            i <= n,
            n == cs.len(),
            out@ == cs@.take(i as int),
            out@ + replace_first(cs@.skip(i as int), pat@, by@) == replace_first(cs@, pat@, by@),
            occurs(cs@.skip(i as int), pat@) == occurs(cs@, pat@),
        decreases n - i,
    {
        let ghost s = cs@.skip(i as int);
        if matches_at(cs, i, pat) {
            out.append(by);
            push_range(&mut out, cs, i + pat.len(), n);
            assert(s.skip(pat.len() as int) =~= cs@.subrange(i + pat.len(), n as int));
            return (out, true);
        }
        if i == n {
            assert(s.len() == 0);
            assert(cs@.take(n as int) =~= cs@);
            return (out, false);
        }
        assert(s[0] == cs@[i as int]);
        assert(s.skip(1) =~= cs@.skip(i + 1));
        assert(cs@.take(i + 1) =~= cs@.take(i as int).push(cs@[i as int]));
        assert(out@ + replace_first(s, pat@, by@) =~= cs@.take(i + 1) + replace_first(
            cs@.skip(i + 1),
            pat@,
            by@,
        ));
        push_char(&mut out, cs[i]);
        i = i + 1;
    }
}

/// Every replacement.
fn replace_every_chars(cs: &Vec<char>, pat: &Vec<char>, by: &str) -> (r: String)
    ensures
        r@ == replace_every(cs@, pat@, by@),
{
    let n = cs.len();
    let mut out = String::new();
    let mut i: usize = 0;
    assert(cs@.skip(0) =~= cs@);
    if pat.len() == 0 {
        while i < n
            invariant
                i <= n,
                n == cs.len(),
                pat@.len() == 0,
                out@ + replace_every(cs@.skip(i as int), pat@, by@) == replace_every(cs@, pat@, by@),
            decreases n - i,
        {
            let ghost s = cs@.skip(i as int);
            assert(s[0] == cs@[i as int]);
            assert(s.skip(1) =~= cs@.skip(i + 1));
            out.append(by);
            push_char(&mut out, cs[i]);
            i = i + 1;
        }
        out.append(by);
        return out;
    }
    while i < n
        invariant
            i <= n,
            n == cs.len(),
            pat@.len() > 0,
            out@ + replace_every(cs@.skip(i as int), pat@, by@) == replace_every(cs@, pat@, by@),
        decreases n - i,
    {
        let ghost s = cs@.skip(i as int);
        if matches_at(cs, i, pat) {
            assert(s.skip(pat.len() as int) =~= cs@.skip(i + pat.len()));
            out.append(by);
            i = i + pat.len();
        } else {
            assert(s[0] == cs@[i as int]);
            assert(s.skip(1) =~= cs@.skip(i + 1));
            push_char(&mut out, cs[i]);
            i = i + 1;
        }
    }
    assert(cs@.skip(i as int).len() == 0);
    out
}

/// The edit of a text: its first occurrence of `old_string` replaced by
/// `new_string`, or every occurrence when `replace_all` is set; `None` when
/// `old_string` does not occur.
pub fn edit_text(content: &str, old_string: &str, new_string: &str, replace_all: bool) -> (r: Option<
    String,
>)
    ensures
        match r {
            None => !occurs(content@, old_string@),
            Some(t) => occurs(content@, old_string@) && t@ == if replace_all {
                replace_every(content@, old_string@, new_string@)
            } else {
                replace_first(content@, old_string@, new_string@)
            },
        },
{
    let cs = chars_of(content);
    let pat = chars_of(old_string);
    let (first, found) = replace_first_chars(&cs, &pat, new_string);
    if !found {
        return None;
    }
    if replace_all {
        Some(replace_every_chars(&cs, &pat, new_string))
    } else {
        Some(first)
    }
}

/// The position just after the first line break at or after `p`, or the
/// end of `s` when there is none.
pub open spec fn next_line(s: Seq<char>, p: int) -> int
    decreases s.len() - p,
{
    if p >= s.len() {
        s.len() as int
    } else if s[p] == '\n' {
        p + 1
    } else {
        next_line(s, p + 1)
    }
}

/// The position reached from `p` by passing `k` line breaks (the end of
/// `s` when there are fewer).
pub open spec fn advance(s: Seq<char>, p: int, k: nat) -> int
    decreases k,
{
    if k == 0 {
        p
    } else {
        next_line(s, advance(s, p, (k - 1) as nat))
    }
}

/// Where line `k` (counted from 0) of `s` starts, or the end of `s` when
/// `s` has no such line.
pub open spec fn line_start(s: Seq<char>, k: nat) -> int {
    advance(s, 0, k)
}

/// The lines of `s` from line `offset` on, at most `limit` of them, each
/// with its line break.
pub open spec fn line_window(s: Seq<char>, offset: nat, limit: Option<nat>) -> Seq<char> {
    s.subrange(
        line_start(s, offset),
        match limit {
            Some(l) => line_start(s, offset + l),
            None => s.len() as int,
        },
    )
}

proof fn lemma_next_line_bounds(s: Seq<char>, p: int)
    requires
        0 <= p <= s.len(),
    ensures
        p <= next_line(s, p) <= s.len(),
        p < s.len() ==> p < next_line(s, p),
    decreases s.len() - p,
{
    if p < s.len() && s[p] != '\n' {
        lemma_next_line_bounds(s, p + 1);
    }
}

proof fn lemma_advance_bounds(s: Seq<char>, p: int, k: nat)
    requires
        0 <= p <= s.len(),
    ensures
        p <= advance(s, p, k) <= s.len(),
    decreases k,
{
    if k > 0 {
        lemma_advance_bounds(s, p, (k - 1) as nat);
        lemma_next_line_bounds(s, advance(s, p, (k - 1) as nat));
    }
}

proof fn lemma_advance_at_end(s: Seq<char>, k: nat)
    ensures
        advance(s, s.len() as int, k) == s.len(),
    decreases k,
{
    if k > 0 {
        lemma_advance_at_end(s, (k - 1) as nat);
    }
}

proof fn lemma_advance_add(s: Seq<char>, p: int, a: nat, b: nat)
    ensures
        advance(s, p, a + b) == advance(s, advance(s, p, a), b),
    decreases b,
{
    if b > 0 {
        lemma_advance_add(s, p, a, (b - 1) as nat);
        assert((a + b - 1) as nat == a + (b - 1) as nat);
    }
}

/// The number of line breaks (`\n`) in `s`.
pub open spec fn count_breaks(s: Seq<char>) -> nat
    decreases s.len(),
{
    if s.len() == 0 {
        0
    } else {
        count_breaks(s.drop_last()) + if s.last() == '\n' {
            1nat
        } else {
            0nat
        }
    }
}

proof fn lemma_count_take_step(s: Seq<char>, j: int)
    requires
        0 <= j < s.len(),
    ensures
        count_breaks(s.take(j + 1)) == count_breaks(s.take(j)) + if s[j] == '\n' {
            1nat
        } else {
            0nat
        },
{
    assert(s.take(j + 1).drop_last() =~= s.take(j));
}

proof fn lemma_count_no_break(s: Seq<char>, a: int, b: int)
    requires
        0 <= a <= b <= s.len(),
        forall|j: int| a <= j < b ==> s[j] != '\n',
    ensures
        count_breaks(s.take(b)) == count_breaks(s.take(a)),
    decreases b - a,
{
    if a < b {
        lemma_count_no_break(s, a, b - 1);
        lemma_count_take_step(s, b - 1);
    }
}

proof fn lemma_count_monotone(s: Seq<char>, a: int, b: int)
    requires
        0 <= a <= b <= s.len(),
    ensures
        count_breaks(s.take(a)) <= count_breaks(s.take(b)),
    decreases b - a,
{
    if a < b {
        lemma_count_monotone(s, a, b - 1);
        lemma_count_take_step(s, b - 1);
    }
}

proof fn lemma_next_line_shape(s: Seq<char>, p: int)
    requires
        0 <= p <= s.len(),
    ensures
        (p < next_line(s, p) && s[next_line(s, p) - 1] == '\n' && forall|j: int|
            p <= j < next_line(s, p) - 1 ==> s[j] != '\n') || (next_line(s, p) == s.len() && forall|j: int|
            p <= j < s.len() ==> s[j] != '\n'),
    decreases s.len() - p,
{
    if p < s.len() && s[p] != '\n' {
        lemma_next_line_shape(s, p + 1);
    }
}

/// Where each line of a text starts: line 0 at the start, and line `k`
/// (for `k` no larger than the number of line breaks) just after the
/// `k`-th line break, with exactly `k` breaks before it; a line beyond the
/// last line break starts at the end of the text.
pub proof fn lemma_line_start(s: Seq<char>, k: nat)
    ensures
        0 <= line_start(s, k) <= s.len(),
        k <= count_breaks(s) ==> count_breaks(s.take(line_start(s, k))) == k,
        0 < k <= count_breaks(s) ==> s[line_start(s, k) - 1] == '\n',
        k == 0 ==> line_start(s, k) == 0,
        k > count_breaks(s) ==> line_start(s, k) == s.len(),
    decreases k,
{
    assert(s.take(s.len() as int) =~= s);
    assert(s.take(0).len() == 0);
    if k > 0 {
        let m = (k - 1) as nat;
        lemma_line_start(s, m);
        let p = line_start(s, m);
        assert(line_start(s, k) == next_line(s, p));
        lemma_next_line_shape(s, p);
        lemma_next_line_bounds(s, p);
        let q = next_line(s, p);
        if m <= count_breaks(s) {
            if p < q && s[q - 1] == '\n' && forall|j: int| p <= j < q - 1 ==> s[j] != '\n' {
                lemma_count_no_break(s, p, q - 1);
                lemma_count_take_step(s, q - 1);
                lemma_count_monotone(s, q, s.len() as int);
            } else {
                lemma_count_no_break(s, p, s.len() as int);
            }
        } else {
            assert(p == s.len());
        }
    }
}

/// The position after the next line break from `p` (see `next_line`).
fn next_line_pos(cs: &Vec<char>, p: usize) -> (r: usize)
    requires
        p <= cs.len(),
    ensures
        r == next_line(cs@, p as int),
{
    let mut i = p;
    while i < cs.len() && cs[i] != '\n'
        invariant
            p <= i <= cs.len(),
            next_line(cs@, i as int) == next_line(cs@, p as int),
        decreases cs.len() - i,
    {
        i = i + 1;
    }
    if i < cs.len() {
        i + 1
    } else {
        i
    }
}

/// The position reached from `p` by passing `k` line breaks (see `advance`).
fn advance_pos(cs: &Vec<char>, p: usize, k: u64) -> (r: usize)
    requires
        p <= cs.len(),
    ensures
        r == advance(cs@, p as int, k as nat),
{
    let mut pos = p;
    let mut j: u64 = 0;
    while j < k && pos < cs.len()
        invariant
            j <= k,
            p <= pos <= cs.len(),
            pos == advance(cs@, p as int, j as nat),
        decreases k - j,
    {
        proof {
            lemma_next_line_bounds(cs@, pos as int);
        }
        pos = next_line_pos(cs, pos);
        j = j + 1;
    }
    proof {
        if j < k {
            lemma_advance_add(cs@, p as int, j as nat, (k - j) as nat);
            lemma_advance_at_end(cs@, (k - j) as nat);
            assert((j + (k - j)) as nat == k as nat);
        }
    }
    pos
}

/// The lines a read returns (see `line_window`).
pub fn read_window(content: &str, offset: Option<u64>, limit: Option<u64>) -> (r: String)
    ensures
        r@ == line_window(
            content@,
            match offset {
                Some(o) => o as nat,
                None => 0,
            },
            match limit {
                Some(l) => Some(l as nat),
                None => None,
            },
        ),
{
    let cs = chars_of(content);
    let first: u64 = match offset {
        Some(o) => o,
        None => 0,
    };
    let start = advance_pos(&cs, 0, first);
    proof {
        lemma_advance_bounds(cs@, 0, first as nat);
    }
    let end = match limit {
        Some(l) => {
            let e = advance_pos(&cs, start, l);
            proof {
                lemma_advance_add(cs@, 0, first as nat, l as nat);
                lemma_advance_bounds(cs@, start as int, l as nat);
            }
            e
        },
        None => cs.len(),
    };
    let mut out = String::new();
    push_range(&mut out, &cs, start, end);
    out
}

} // verus!
