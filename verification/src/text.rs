//! Small operations on text, stated over sequences of characters.
use vstd::prelude::*;
use vstd::string::*;

verus! {

/// `str::eq` from the standard library: two strings are equal exactly when
/// their characters are.
pub assume_specification[ <str as PartialEq>::eq ](a: &str, b: &str) -> (r: bool)
    ensures
        r == (a@ == b@),
;

/// `String::push` from the standard library: appends one character.
pub assume_specification[ String::push ](s: &mut String, c: char)
    ensures
        final(s)@ == old(s)@.push(c),
;

/// `String::pop` from the standard library: removes the last character and
/// returns it, or returns `None` and changes nothing when there is none.
pub assume_specification[ String::pop ](s: &mut String) -> (r: Option<char>)
    ensures
        old(s)@.len() == 0 ==> r is None && final(s)@ == old(s)@,
        old(s)@.len() > 0 ==> r == Some(old(s)@.last()) && final(s)@ == old(s)@.drop_last(),
;

/// Whether a character carries Unicode's `White_Space` property.
pub open spec fn white_space(c: char) -> bool {
    let n = c as u32;
    ||| 0x09 <= n <= 0x0d
    ||| n == 0x20
    ||| n == 0x85
    ||| n == 0xa0
    ||| n == 0x1680
    ||| 0x2000 <= n <= 0x200a
    ||| n == 0x2028
    ||| n == 0x2029
    ||| n == 0x202f
    ||| n == 0x205f
    ||| n == 0x3000
}

/// Whether a character carries Unicode's `White_Space` property.
fn is_whitespace(c: char) -> (r: bool)
    ensures
        r == white_space(c),
{
    let n: u32 = c as u32;
    (0x09 <= n && n <= 0x0d) || n == 0x20 || n == 0x85 || n == 0xa0 || n == 0x1680 || (0x2000 <= n
        && n <= 0x200a) || n == 0x2028 || n == 0x2029 || n == 0x202f || n == 0x205f || n == 0x3000
}

/// The decimal digit for a value below ten.
pub open spec fn digit(n: nat) -> char {
    ((0x30 + n % 10) as u8) as char
}

/// A number written in decimal, without leading zeros.
pub open spec fn decimal_text(n: nat) -> Seq<char>
    decreases n,
{
    if n < 10 {
        seq![digit(n)]
    } else {
        decimal_text(n / 10).push(digit(n % 10))
    }
}

/// `n` written in decimal.
pub fn decimal(n: u64) -> (r: String)
    ensures
        r@ == decimal_text(n as nat),
    decreases n,
{
    let d: u8 = (n % 10) as u8;
    let c: char = (0x30 + d) as char;
    let mut s = if n < 10 {
        String::new()
    } else {
        decimal(n / 10)
    };
    s.push(c);
    proof {
        assert(c == digit((n % 10) as nat));
        if n < 10 {
            assert(s@ =~= decimal_text(n as nat));
        }
    }
    s
}

/// Ten to the power `k`.
spec fn ten(k: nat) -> nat
    decreases k,
{
    if k == 0 {
        1
    } else {
        10 * ten((k - 1) as nat)
    }
}

proof fn lemma_digits(n: nat, k: nat)
    requires
        k >= 1,
        n < ten(k),
    ensures
        1 <= decimal_text(n).len() <= k,
    decreases k,
{
    if k == 1 {
        assert(ten(1) == 10 * ten(0));
    } else if n >= 10 {
        lemma_digits(n / 10, (k - 1) as nat);
    }
}

/// A 64-bit number has at most twenty digits.
pub proof fn lemma_decimal_len(n: nat)
    requires
        n <= u64::MAX,
    ensures
        1 <= decimal_text(n).len() <= 20,
{
    assert(ten(20) == 100_000_000_000_000_000_000) by {
        reveal_with_fuel(ten, 21);
    }
    lemma_digits(n, 20);
}

/// `n` copies of `c`.
pub open spec fn repeated(c: char, n: nat) -> Seq<char> {
    Seq::new(n, |i: int| c)
}

/// `n` copies of `c`.
pub fn repeat(c: char, n: usize) -> (r: String)
    ensures
        r@ == repeated(c, n as nat),
{
    let mut s = String::new();
    let mut i: usize = 0;
    while i < n
        invariant
            i <= n,
            s@ == repeated(c, i as nat),
        decreases n - i,
    {
        s.push(c);
        i += 1;
        assert(s@ =~= repeated(c, i as nat));
    }
    s
}

/// `s` written `n` times.
pub open spec fn times(s: Seq<char>, n: nat) -> Seq<char>
    decreases n,
{
    if n == 0 {
        Seq::empty()
    } else {
        times(s, (n - 1) as nat) + s
    }
}

/// `s` written `n` times.
pub fn repeat_text(s: &str, n: usize) -> (r: String)
    ensures
        r@ == times(s@, n as nat),
{
    let mut out = String::new();
    let mut i: usize = 0;
    while i < n
        invariant
            i <= n,
            out@ == times(s@, i as nat),
        decreases n - i,
    {
        out.append(s);
        i += 1;
    }
    out
}

/// Whether two strings have the same characters.
pub fn same(a: &str, b: &str) -> (r: bool)
    ensures
        r == (a@ == b@),
{
    a.eq(b)
}

/// The characters of `a` followed by those of `b`.
pub fn join2(a: &str, b: &str) -> (r: String)
    ensures
        r@ == a@ + b@,
{
    let mut s = a.to_owned();
    s.append(b);
    s
}

/// The characters of `a`, `b` and `c` in order.
pub fn join3(a: &str, b: &str, c: &str) -> (r: String)
    ensures
        r@ == a@ + b@ + c@,
{
    let mut s = a.to_owned();
    s.append(b);
    s.append(c);
    s
}

/// How many leading characters of `s` are white space.
pub open spec fn leading_space(s: Seq<char>) -> nat
    decreases s.len(),
{
    if s.len() > 0 && white_space(s[0]) {
        1 + leading_space(s.drop_first())
    } else {
        0
    }
}

/// How many trailing characters of `s` are white space.
pub open spec fn trailing_space(s: Seq<char>) -> nat
    decreases s.len(),
{
    if s.len() > 0 && white_space(s.last()) {
        1 + trailing_space(s.drop_last())
    } else {
        0
    }
}

/// `s` without the white space at either end.
pub open spec fn trimmed(s: Seq<char>) -> Seq<char> {
    let rest = s.skip(leading_space(s) as int);
    rest.take(rest.len() - trailing_space(rest))
}

proof fn lemma_space_bounds(s: Seq<char>)
    ensures
        leading_space(s) <= s.len(),
        trailing_space(s) <= s.len(),
    decreases s.len(),
{
    if s.len() > 0 {
        lemma_space_bounds(s.drop_first());
        lemma_space_bounds(s.drop_last());
    }
}

/// Law: trimming leaves no white space at either end, and takes nothing but
/// white space away.
pub proof fn law_trimmed(s: Seq<char>)
    ensures
        leading_space(s) + trimmed(s).len() <= s.len(),
        trimmed(s) == s.subrange(
            leading_space(s) as int,
            leading_space(s) + trimmed(s).len() as int,
        ),
        forall|i: int| 0 <= i < leading_space(s) ==> white_space(#[trigger] s[i]),
        forall|i: int|
            leading_space(s) + trimmed(s).len() <= i < s.len() ==> white_space(#[trigger] s[i]),
        trimmed(s).len() > 0 ==> !white_space(trimmed(s)[0]) && !white_space(trimmed(s).last()),
{
    lemma_space_bounds(s);
    let rest = s.skip(leading_space(s) as int);
    lemma_space_bounds(rest);
    lemma_leading(s);
    lemma_trailing(rest);
    assert(trimmed(s) =~= s.subrange(
        leading_space(s) as int,
        leading_space(s) + trimmed(s).len() as int,
    ));
    assert forall|i: int|
        leading_space(s) + trimmed(s).len() <= i < s.len() implies white_space(#[trigger] s[i]) by {
        assert(rest[i - leading_space(s)] == s[i]);
    }
}

/// A text that neither starts nor ends in white space is trimmed already.
pub proof fn lemma_trimmed_as_is(s: Seq<char>)
    requires
        s.len() > 0 ==> !white_space(s[0]) && !white_space(s.last()),
    ensures
        trimmed(s) == s,
{
    assert(s.skip(0) =~= s);
    assert(s.take(s.len() as int) =~= s);
}

/// Law: trimming twice is trimming once.
pub proof fn law_trim_twice(s: Seq<char>)
    ensures
        trimmed(trimmed(s)) == trimmed(s),
{
    law_trimmed(s);
    lemma_trimmed_as_is(trimmed(s));
}

proof fn lemma_leading(s: Seq<char>)
    ensures
        leading_space(s) <= s.len(),
        forall|i: int| 0 <= i < leading_space(s) ==> white_space(#[trigger] s[i]),
        leading_space(s) < s.len() ==> !white_space(s[leading_space(s) as int]),
    decreases s.len(),
{
    if s.len() > 0 && white_space(s[0]) {
        let t = s.drop_first();
        lemma_leading(t);
        assert forall|i: int| 0 <= i < leading_space(s) implies white_space(#[trigger] s[i]) by {
            if i > 0 {
                assert(t[i - 1] == s[i]);
            }
        }
    }
}

proof fn lemma_trailing(s: Seq<char>)
    ensures
        trailing_space(s) <= s.len(),
        forall|i: int| s.len() - trailing_space(s) <= i < s.len() ==> white_space(#[trigger] s[i]),
        trailing_space(s) < s.len() ==> !white_space(s[s.len() - trailing_space(s) - 1]),
    decreases s.len(),
{
    if s.len() > 0 && white_space(s.last()) {
        let t = s.drop_last();
        lemma_trailing(t);
        assert forall|i: int| s.len() - trailing_space(s) <= i < s.len() implies white_space(
            #[trigger] s[i],
        ) by {
            if i < s.len() - 1 {
                assert(t[i] == s[i]);
            }
        }
    }
}

/// `s` as a vector of characters.
pub fn chars_of(s: &str) -> (r: Vec<char>)
    ensures
        r@ == s@,
{
    let mut v: Vec<char> = Vec::new();
    for c in it: s.chars()
        invariant
            v@ == it.seq().take(it.index() as int),
            it.seq() == s@,
    {
        v.push(c);
        assert(v@ =~= it.seq().take(it.index() + 1 as int));
    }
    assert(v@ =~= s@);
    v
}

/// The characters `v[from..to]` as a string.
pub fn text_of(v: &Vec<char>, from: usize, to: usize) -> (r: String)
    requires
        from <= to <= v.len(),
    ensures
        r@ == v@.subrange(from as int, to as int),
{
    let mut s = String::new();
    let mut i: usize = from;
    while i < to
        invariant
            from <= i <= to <= v.len(),
            s@ == v@.subrange(from as int, i as int),
        decreases to - i,
    {
        s.push(v[i]);
        i += 1;
        assert(s@ =~= v@.subrange(from as int, i as int));
    }
    s
}

/// `s` without the white space at either end.
pub fn trim(s: &str) -> (r: String)
    ensures
        r@ == trimmed(s@),
{
    let v = chars_of(s);
    let mut from: usize = 0;
    proof {
        assert(s@.skip(0) =~= s@);
    }
    while from < v.len() && is_whitespace(v[from])
        invariant
            from <= v.len(),
            v@ == s@,
            leading_space(s@) == from + leading_space(s@.skip(from as int)),
        decreases v.len() - from,
    {
        assert(s@.skip(from as int).drop_first() =~= s@.skip(from + 1));
        from += 1;
    }
    let mut to: usize = v.len();
    let ghost rest = s@.skip(from as int);
    proof {
        assert(leading_space(rest) == 0);
        assert(rest.take(rest.len() as int) =~= rest);
    }
    while to > from && is_whitespace(v[to - 1])
        invariant
            from <= to <= v.len(),
            v@ == s@,
            rest == s@.skip(from as int),
            trailing_space(rest) == v.len() - to + trailing_space(rest.take(to - from)),
        decreases to,
    {
        assert(rest.take(to - from).last() == v@[to - 1]);
        assert(rest.take(to - from).drop_last() =~= rest.take(to - from - 1));
        to -= 1;
    }
    proof {
        let kept = rest.take(to - from);
        if to > from {
            assert(kept.last() == v@[to - 1]);
        }
        assert(trailing_space(kept) == 0);
        assert(v@.subrange(from as int, to as int) =~= trimmed(s@));
    }
    text_of(&v, from, to)
}

/// The first line of `s`: what comes before the first line feed, without a
/// carriage return just before it; all of `s` where there is no line feed.
pub open spec fn first_line(s: Seq<char>) -> Seq<char> {
    if s.contains('\n') {
        let line = s.take(s.index_of_first('\n')->0);
        if line.len() > 0 && line.last() == '\r' {
            line.drop_last()
        } else {
            line
        }
    } else {
        s
    }
}

/// The first line of `s`.
pub fn line_one(s: &str) -> (r: String)
    ensures
        r@ == first_line(s@),
{
    let v = chars_of(s);
    let mut i: usize = 0;
    while i < v.len() && v[i] != '\n'
        invariant
            i <= v.len(),
            v@ == s@,
            forall|k: int| 0 <= k < i ==> v@[k] != '\n',
        decreases v.len() - i,
    {
        i += 1;
    }
    proof {
        if i < v.len() {
            assert(s@.contains(s@[i as int]));
            s@.index_of_first_ensures('\n');
            assert(s@.index_of_first('\n') == Some(i as int));
        } else {
            assert(!s@.contains('\n'));
            assert(s@.subrange(0, i as int) =~= s@);
        }
    }
    if i < v.len() && i > 0 && v[i - 1] == '\r' {
        assert(s@.take(i as int).last() == v@[i - 1]);
        assert(v@.subrange(0, i - 1) =~= s@.take(i as int).drop_last());
        text_of(&v, 0, i - 1)
    } else {
        assert(i < v.len() && i > 0 ==> s@.take(i as int).last() == v@[i - 1]);
        assert(v@.subrange(0, i as int) =~= s@.take(i as int));
        text_of(&v, 0, i)
    }
}

/// Law: the first line is what comes before the first line feed, without a carriage
/// return at its end; a text without one is a line.
pub proof fn law_first_line(line: Seq<char>, rest: Seq<char>)
    requires
        forall|i: int| 0 <= i < line.len() ==> #[trigger] line[i] != '\n',
        line.len() > 0 ==> line.last() != '\r',
    ensures
        first_line(line) == line,
        first_line(line + seq!['\n'] + rest) == line,
        first_line(line + seq!['\r', '\n'] + rest) == line,
{
    let one = line + seq!['\n'] + rest;
    let two = line + seq!['\r', '\n'] + rest;
    let n = line.len() as int;
    one.index_of_first_ensures('\n');
    two.index_of_first_ensures('\n');
    assert(one[n] == '\n');
    assert(two[n + 1] == '\n');
    assert(one.contains('\n'));
    assert(two.contains('\n'));
    assert forall|i: int| 0 <= i < n implies #[trigger] one[i] != '\n' && two[i] != '\n' by {
        assert(line[i] != '\n');
    }
    assert(two[n] == '\r');
    let a = one.index_of_first('\n')->0;
    let b = two.index_of_first('\n')->0;
    assert(a == n);
    assert(b == n + 1);
    assert(one.take(a) =~= line);
    assert(two.take(b) =~= line.push('\r'));
    assert(line.push('\r').drop_last() =~= line);
    if line.contains('\n') {
        let i = choose|i: int| 0 <= i < line.len() && line[i] == '\n';
        assert(line[i] != '\n');
    }
}

} // verus!
