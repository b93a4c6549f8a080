//! Text utilities: building strings, decimal and hexadecimal digits,
//! Unicode whitespace trimming and splitting at a separator.

use vstd::prelude::*;

verus! {

/// Appends one character to a string (`String::push`).
#[verifier::external_body]
pub(crate) fn push_char(s: &mut String, c: char)
    ensures
        final(s)@ == old(s)@.push(c),
{
    s.push(c);
}

/// The characters of a string slice, in order.
pub fn chars_of(s: &str) -> (r: Vec<char>)
    ensures
        r@ == s@,
{
    let mut r: Vec<char> = Vec::new();
    for c in it: s.chars()
        invariant
            r@ == it.seq().take(it.index() as int),
            it.seq() == s@,
    {
        r.push(c);
    }
    r
}


/// Appends the characters `cs[from..to]` to `s`.
pub fn push_range(s: &mut String, cs: &Vec<char>, from: usize, to: usize)
    requires
        from <= to <= cs.len(),
    ensures
        final(s)@ == old(s)@ + cs@.subrange(from as int, to as int),
{
    let mut i: usize = from;
    while i < to
        invariant
            from <= i <= to <= cs.len(),
            s@ == old(s)@ + cs@.subrange(from as int, i as int),
        decreases to - i,
    {
        push_char(s, cs[i]);
        i = i + 1;
        assert(s@ == old(s)@ + cs@.subrange(from as int, i as int));
    }
}

/// The digit character of `d` in bases up to sixteen, lower case.
pub open spec fn digit_spec(d: nat) -> char {
    if d < 10 {
        (48 + d) as char
    } else {
        (87 + d) as char
    }
}

/// The digits of `n` in base `base` (2..=16), most significant first, no padding.
pub open spec fn digits_spec(n: nat, base: nat) -> Seq<char>
    decreases n,
{
    if base < 2 || n < base {
        seq![digit_spec(n)]
    } else {
        proof {
            lemma_quotient_smaller(n, base);
        }
        digits_spec(n / base, base).push(digit_spec(n % base))
    }
}

/// The value a digit character stands for: `0`–`9` and `a`–`f`.
pub open spec fn digit_value(c: char) -> int {
    if (c as u32) <= 57 {
        (c as u32) - 48
    } else {
        (c as u32) - 87
    }
}

/// Whether `c` is a digit of the base: `0`–`9` and then `a`–`f`, below the base.
pub open spec fn is_digit_in(c: char, base: nat) -> bool {
    ||| 48 <= (c as u32) <= 57 && (c as u32) - 48 < base
    ||| 97 <= (c as u32) <= 102 && (c as u32) - 87 < base
}

/// The number that a digit text in the base stands for, most significant first.
pub open spec fn digits_value(s: Seq<char>, base: nat) -> int
    decreases s.len(),
{
    if s.len() == 0 {
        0
    } else {
        digits_value(s.drop_last(), base) * base + digit_value(s.last())
    }
}

proof fn lemma_digit_spec_value(d: nat, base: nat)
    requires
        d < base <= 16,
    ensures
        digit_value(digit_spec(d)) == d,
        is_digit_in(digit_spec(d), base),
        d > 0 ==> digit_spec(d) != '0',
{
    if d < 10 {
        assert((48 + d) as char as u32 == 48 + d);
    } else {
        assert((87 + d) as char as u32 == 87 + d);
    }
}

/// The digits of a number read back as that number: each is a digit of the
/// base, the text stands for `n`, it has no leading zero, and zero is `0`.
pub proof fn lemma_digits_read_back(n: nat, base: nat)
    requires
        2 <= base <= 16,
    ensures
        digits_value(digits_spec(n, base), base) == n,
        forall|k: int| 0 <= k < digits_spec(n, base).len() ==> is_digit_in(#[trigger] digits_spec(n, base)[k], base),
        n > 0 ==> digits_spec(n, base)[0] != '0',
        n == 0 ==> digits_spec(n, base) == seq!['0'],
    decreases n,
{
    let ds = digits_spec(n, base);
    if n < base {
        lemma_digit_spec_value(n, base);
        assert(ds.drop_last() =~= Seq::<char>::empty());
        assert(ds.last() == digit_spec(n));
        assert(digits_value(Seq::<char>::empty(), base) == 0);
        if n == 0 {
            assert((48 + 0nat) as char as u32 == 48);
            assert(digit_spec(0) == '0');
        }
    } else {
        lemma_quotient_smaller(n, base);
        let q = n / base;
        let r = n % base;
        lemma_digits_read_back(q, base);
        lemma_digit_spec_value(r, base);
        let pre = digits_spec(q, base);
        assert(ds == pre.push(digit_spec(r)));
        assert(ds.drop_last() =~= pre);
        assert(q * base + r == n) by (nonlinear_arith)
            requires
                q == n / base,
                r == n % base,
                base > 0,
        ;
        assert(q > 0) by (nonlinear_arith)
            requires
                q == n / base,
                n >= base,
                base > 0,
        ;
        assert(ds[0] == pre[0]);
        assert forall|k: int| 0 <= k < ds.len() implies is_digit_in(#[trigger] ds[k], base) by {
            if k < pre.len() {
                assert(ds[k] == pre[k]);
            }
        }
    }
}

/// A quotient by a base of at least two is smaller than a dividend at least that base.
pub proof fn lemma_quotient_smaller(n: nat, base: nat)
    requires
        2 <= base <= n,
    ensures
        n / base < n,
{
    assert(n / base < n) by (nonlinear_arith)
        requires
            2 <= base <= n,
    ;
}

/// Decimal text of `n`, as `{}` formats it.
pub open spec fn decimal(n: nat) -> Seq<char> {
    digits_spec(n, 10)
}

/// Lower-case hexadecimal text of `n`, as `{:x}` formats it.
pub open spec fn lower_hex(n: nat) -> Seq<char> {
    digits_spec(n, 16)
}

fn digit_char(d: u64) -> (c: char)
    requires
        d < 16,
    ensures
        c == digit_spec(d as nat),
{
    let v: u8 = d as u8;
    if v < 10 {
        (48u8 + v) as char
    } else {
        (87u8 + v) as char
    }
}

/// Appends the digits of `n` in base `base` to `s`.
pub fn push_digits(s: &mut String, n: u64, base: u64)
    requires
        2 <= base <= 16,
    ensures
        final(s)@ == old(s)@ + digits_spec(n as nat, base as nat),
    decreases n,
{
    if n >= base {
        proof {
            lemma_quotient_smaller(n as nat, base as nat);
        }
        push_digits(s, n / base, base);
    }
    push_char(s, digit_char(n % base));
    proof {
        if n < base {
            vstd::arithmetic::div_mod::lemma_small_mod(n as nat, base as nat);
        }
        assert(s@ == old(s)@ + digits_spec(n as nat, base as nat));
    }
}

/// Decimal text of `n`.
pub fn decimal_string(n: u64) -> (r: String)
    ensures
        r@ == decimal(n as nat),
{
    let mut s = String::new();
    push_digits(&mut s, n, 10);
    s
}

/// Lower-case hexadecimal text of `n`.
pub fn lower_hex_string(n: u64) -> (r: String)
    ensures
        r@ == lower_hex(n as nat),
{
    let mut s = String::new();
    push_digits(&mut s, n, 16);
    s
}


/// Unicode `White_Space`, the set that `char::is_whitespace` and `str::trim` use.
pub open spec fn is_space(c: char) -> bool {
    let u = c as u32;
    ||| 9 <= u <= 13
    ||| u == 32
    ||| u == 0x85
    ||| u == 0xa0
    ||| u == 0x1680
    ||| 0x2000 <= u <= 0x200a
    ||| u == 0x2028
    ||| u == 0x2029
    ||| u == 0x202f
    ||| u == 0x205f
    ||| u == 0x3000
}

/// Whether `c` is Unicode whitespace.
pub fn is_space_char(c: char) -> (b: bool)
    ensures
        b == is_space(c),
{
    let u = c as u32;
    (9 <= u && u <= 13) || u == 32 || u == 0x85 || u == 0xa0 || u == 0x1680 || (0x2000 <= u && u
        <= 0x200a) || u == 0x2028 || u == 0x2029 || u == 0x202f || u == 0x205f || u == 0x3000
}

/// `s` without its leading whitespace.
pub open spec fn trim_start(s: Seq<char>) -> Seq<char>
    decreases s.len(),
{
    if s.len() > 0 && is_space(s[0]) {
        trim_start(s.drop_first())
    } else {
        s
    }
}

/// `s` without its trailing whitespace.
pub open spec fn trim_end(s: Seq<char>) -> Seq<char>
    decreases s.len(),
{
    if s.len() > 0 && is_space(s.last()) {
        trim_end(s.drop_last())
    } else {
        s
    }
}

/// `s` without leading and trailing whitespace, as `str::trim` gives it.
pub open spec fn trim(s: Seq<char>) -> Seq<char> {
    trim_end(trim_start(s))
}

proof fn lemma_trim_start_skip(s: Seq<char>, i: int)
    requires
        0 <= i <= s.len(),
        forall|k: int| 0 <= k < i ==> is_space(#[trigger] s[k]),
    ensures
        trim_start(s) == trim_start(s.subrange(i, s.len() as int)),
    decreases i,
{
    if i > 0 {
        assert(s.drop_first().subrange(i - 1, s.drop_first().len() as int) =~= s.subrange(
            i,
            s.len() as int,
        ));
        lemma_trim_start_skip(s.drop_first(), i - 1);
    } else {
        assert(s.subrange(0, s.len() as int) =~= s);
    }
}

proof fn lemma_trim_end_take(s: Seq<char>, j: int)
    requires
        0 <= j <= s.len(),
        forall|k: int| j <= k < s.len() ==> is_space(#[trigger] s[k]),
    ensures
        trim_end(s) == trim_end(s.subrange(0, j)),
    decreases s.len() - j,
{
    if j < s.len() {
        assert(s.drop_last().subrange(0, j) =~= s.subrange(0, j));
        lemma_trim_end_take(s.drop_last(), j);
    } else {
        assert(s.subrange(0, j) =~= s);
    }
}

proof fn lemma_trim_start_shape(s: Seq<char>) -> (i: int)
    ensures
        0 <= i <= s.len(),
        trim_start(s) == s.skip(i),
        forall|k: int| 0 <= k < i ==> is_space(#[trigger] s[k]),
        i < s.len() ==> !is_space(s[i]),
    decreases s.len(),
{
    if s.len() > 0 && is_space(s[0]) {
        let i = lemma_trim_start_shape(s.drop_first());
        assert(s.drop_first().skip(i) =~= s.skip(i + 1));
        assert forall|k: int| 0 <= k < i + 1 implies is_space(#[trigger] s[k]) by {
            if k > 0 {
                assert(s[k] == s.drop_first()[k - 1]);
            }
        }
        i + 1
    } else {
        assert(s.skip(0) =~= s);
        0
    }
}

proof fn lemma_trim_end_shape(s: Seq<char>) -> (j: int)
    ensures
        0 <= j <= s.len(),
        trim_end(s) == s.take(j),
        forall|k: int| j <= k < s.len() ==> is_space(#[trigger] s[k]),
        j > 0 ==> !is_space(s[j - 1]),
    decreases s.len(),
{
    if s.len() > 0 && is_space(s.last()) {
        let j = lemma_trim_end_shape(s.drop_last());
        assert(s.drop_last().take(j) =~= s.take(j));
        assert forall|k: int| j <= k < s.len() implies is_space(#[trigger] s[k]) by {
            if k < s.len() - 1 {
                assert(s[k] == s.drop_last()[k]);
            }
        }
        j
    } else {
        assert(s.take(s.len() as int) =~= s);
        s.len() as int
    }
}

/// Trimming keeps the part of `s` between its leading and its trailing
/// whitespace: `trim(s)` is `s[i..j]` where everything before `i` and from
/// `j` on is whitespace, and the part kept, unless empty, neither starts
/// nor ends with whitespace.
pub proof fn lemma_trim_shape(s: Seq<char>)
    ensures
        exists|i: int, j: int|
            0 <= i <= j <= s.len() && trim(s) == s.subrange(i, j) && (forall|k: int|
                0 <= k < i ==> is_space(#[trigger] s[k])) && (forall|k: int|
                j <= k < s.len() ==> is_space(#[trigger] s[k])) && (i < j ==> !is_space(s[i])
                && !is_space(s[j - 1])),
{
    let i = lemma_trim_start_shape(s);
    let t = s.skip(i);
    let jt = lemma_trim_end_shape(t);
    let j = i + jt;
    assert(t.take(jt) =~= s.subrange(i, j));
    assert forall|k: int| j <= k < s.len() implies is_space(#[trigger] s[k]) by {
        assert(s[k] == t[k - i]);
    }
    if i < j {
        assert(s[j - 1] == t[jt - 1]);
    }
    assert(0 <= i <= j <= s.len() && trim(s) == s.subrange(i, j));
}

/// The bounds `[from, to)` of `trim(cs[lo..hi])` inside `cs`.
pub fn trim_bounds(cs: &Vec<char>, lo: usize, hi: usize) -> (r: (usize, usize))
    requires
        lo <= hi <= cs.len(),
    ensures
        lo <= r.0 <= r.1 <= hi,
        cs@.subrange(r.0 as int, r.1 as int) == trim(cs@.subrange(lo as int, hi as int)),
{
    let ghost s = cs@.subrange(lo as int, hi as int);
    let mut i = lo;
    while i < hi && is_space_char(cs[i])
        invariant
            lo <= i <= hi <= cs.len(),
            s == cs@.subrange(lo as int, hi as int),
            forall|k: int| lo <= k < i ==> is_space(#[trigger] cs@[k]),
        decreases hi - i,
    {
        i = i + 1;
    }
    proof {
        assert forall|k: int| 0 <= k < i - lo implies is_space(#[trigger] s[k]) by {
            assert(s[k] == cs@[lo + k]);
        }
        lemma_trim_start_skip(s, i - lo);
        assert(s.subrange(i - lo, s.len() as int) =~= cs@.subrange(i as int, hi as int));
        if i < hi {
            assert(!is_space(cs@.subrange(i as int, hi as int)[0]));
        } else {
            assert(cs@.subrange(i as int, hi as int).len() == 0);
        }
    }
    let ghost t = cs@.subrange(i as int, hi as int);
    assert(trim_start(s) == t);
    let mut j = hi;
    while j > i && is_space_char(cs[j - 1])
        invariant
            i <= j <= hi <= cs.len(),
            t == cs@.subrange(i as int, hi as int),
            forall|k: int| j <= k < hi ==> is_space(#[trigger] cs@[k]),
        decreases j - i,
    {
        j = j - 1;
    }
    proof {
        assert forall|k: int| j - i <= k < t.len() implies is_space(#[trigger] t[k]) by {
            assert(t[k] == cs@[i + k]);
        }
        lemma_trim_end_take(t, j - i);
        assert(t.subrange(0, j - i) =~= cs@.subrange(i as int, j as int));
        let u = cs@.subrange(i as int, j as int);
        if j > i {
            assert(u.last() == cs@[j - 1]);
        }
    }
    (i, j)
}

/// The text of `s` with leading and trailing whitespace removed.
pub fn trim_string(s: &str) -> (r: String)
    ensures
        r@ == trim(s@),
{
    let cs = chars_of(s);
    let (a, b) = trim_bounds(&cs, 0, cs.len());
    let mut r = String::new();
    push_range(&mut r, &cs, a, b);
    assert(cs@.subrange(0, cs@.len() as int) =~= cs@);
    assert(r@ =~= cs@.subrange(a as int, b as int));
    r
}

/// The pieces of `s` between occurrences of `sep`, in order; there is
/// always at least one piece, and a trailing `sep` gives a last empty piece.
pub open spec fn split_on(s: Seq<char>, sep: char) -> Seq<Seq<char>>
    decreases s.len(),
{
    if s.len() == 0 {
        seq![Seq::<char>::empty()]
    } else {
        let rest = split_on(s.drop_last(), sep);
        if s.last() == sep {
            rest.push(Seq::<char>::empty())
        } else {
            rest.update(rest.len() - 1, rest.last().push(s.last()))
        }
    }
}

/// `split_on` never yields an empty list of pieces.
pub proof fn lemma_split_on_nonempty(s: Seq<char>, sep: char)
    ensures
        split_on(s, sep).len() >= 1,
    decreases s.len(),
{
    if s.len() > 0 {
        lemma_split_on_nonempty(s.drop_last(), sep);
    }
}


/// The views of a list of strings.
pub open spec fn views(v: Seq<String>) -> Seq<Seq<char>> {
    v.map_values(|x: String| x@)
}

/// The pieces of `s` between occurrences of `sep`.
pub fn split_string(s: &str, sep: char) -> (r: Vec<String>)
    ensures
        views(r@) == split_on(s@, sep),
{
    let cs = chars_of(s);
    let mut pieces: Vec<String> = Vec::new();
    let mut cur = String::new();
    let mut i: usize = 0;
    assert(cs@.take(0) =~= Seq::<char>::empty());
    assert(views(pieces@).push(cur@) =~= split_on(cs@.take(0), sep));
    while i < cs.len()
        invariant
            i <= cs.len(),
            cs@ == s@,
            views(pieces@).push(cur@) == split_on(cs@.take(i as int), sep),
        decreases cs.len() - i,
    {
        let c = cs[i];
        let ghost prev = cs@.take(i as int);
        assert(cs@.take(i + 1).drop_last() =~= prev);
        if c == sep {
            let done = cur;
            pieces.push(done);
            cur = String::new();
            assert(views(pieces@).push(cur@) =~= split_on(prev, sep).push(Seq::<char>::empty()));
        } else {
            push_char(&mut cur, c);
            assert(views(pieces@).push(cur@) =~= split_on(prev, sep).update(
                split_on(prev, sep).len() - 1,
                split_on(prev, sep).last().push(c),
            ));
        }
        i = i + 1;
    }
    assert(cs@.take(cs.len() as int) =~= cs@);
    pieces.push(cur);
    assert(views(pieces@) =~= split_on(s@, sep));
    pieces
}

/// Whether two string slices hold the same characters.
pub fn text_equals(a: &str, b: &str) -> (r: bool)
    ensures
        r == (a@ == b@),
{
    let x = chars_of(a);
    let y = chars_of(b);
    if x.len() != y.len() {
        return false;
    }
    let mut i: usize = 0;
    while i < x.len()
        invariant
            i <= x.len(),
            x.len() == y.len(),
            x@ == a@,
            y@ == b@,
            forall|k: int| 0 <= k < i ==> x@[k] == y@[k],
        decreases x.len() - i,
    {
        if x[i] != y[i] {
            return false;
        }
        i = i + 1;
    }
    assert(x@ =~= y@);
    true
}

/// Whether `s` begins with `prefix`.
pub open spec fn starts_with(s: Seq<char>, prefix: Seq<char>) -> bool {
    prefix.len() <= s.len() && s.subrange(0, prefix.len() as int) == prefix
}

/// Whether `s` ends with `suffix`.
pub open spec fn ends_with(s: Seq<char>, suffix: Seq<char>) -> bool {
    suffix.len() <= s.len() && s.subrange(s.len() - suffix.len(), s.len() as int) == suffix
}

/// Whether `s` ends with `suffix`.
pub fn text_ends_with(s: &str, suffix: &str) -> (r: bool)
    ensures
        r == ends_with(s@, suffix@),
{
    let x = chars_of(s);
    let y = chars_of(suffix);
    if y.len() > x.len() {
        return false;
    }
    let off = x.len() - y.len();
    let mut i: usize = 0;
    while i < y.len()
        invariant
            i <= y.len(),
            off + y.len() == x.len(),
            x@ == s@,
            y@ == suffix@,
            forall|k: int| 0 <= k < i ==> x@[off + k] == y@[k],
        decreases y.len() - i,
    {
        if x[off + i] != y[i] {
            assert(x@.subrange(off as int, x.len() as int)[i as int] != y@[i as int]);
            return false;
        }
        i = i + 1;
    }
    assert(x@.subrange(off as int, x.len() as int) =~= y@);
    true
}

} // verus!
