//! One row's worth of commit facts.
use crate::text;
use vstd::prelude::*;
use vstd::string::*;

verus! {

/// Anything that went wrong reading the repository. The message is shown to the
/// user.
#[derive(Debug, PartialEq, Eq)]
pub struct ReadError(pub String);

impl ReadError {
    /// The failure `e`, with what was being done when it came.
    pub fn from_err(context: &str, e: &str) -> (r: Self)
        ensures
            r.0@ == context@ + ": "@ + e@,
    {
        ReadError(text::join3(context, ": ", e))
    }
}

/// An object's name: 160 bits, most significant first.
#[derive(Debug, Clone, Copy, PartialEq, Eq, Structural)]
pub struct ObjectId {
    pub high: u64,
    pub middle: u64,
    pub low: u32,
}

/// The hexadecimal digit for a value below sixteen.
pub open spec fn hex_digit(n: nat) -> char {
    if n % 16 < 10 {
        ((0x30 + n % 16) as u8) as char
    } else {
        ((0x57 + n % 16) as u8) as char
    }
}

/// The low `digits` hexadecimal digits of `word`, most significant first.
pub open spec fn hex_text(word: nat, digits: nat) -> Seq<char>
    decreases digits,
{
    if digits == 0 {
        Seq::empty()
    } else {
        hex_text(word / 16, (digits - 1) as nat).push(hex_digit(word % 16))
    }
}

fn hex_word(word: u64, digits: usize) -> (r: String)
    ensures
        r@ == hex_text(word as nat, digits as nat),
    decreases digits,
{
    if digits == 0 {
        let s = String::new();
        assert(s@ =~= hex_text(word as nat, 0));
        return s;
    }
    let mut s = hex_word(word / 16, digits - 1);
    let d: u8 = (word % 16) as u8;
    let c: char = if d < 10 {
        (0x30 + d) as char
    } else {
        (0x57 + d) as char
    };
    s.push(c);
    s
}

impl ObjectId {
    /// The name as forty hexadecimal digits.
    pub open spec fn text(self) -> Seq<char> {
        hex_text(self.high as nat, 16) + hex_text(self.middle as nat, 16) + hex_text(
            self.low as nat,
            8,
        )
    }

    /// The name as forty hexadecimal digits.
    pub fn to_hex(&self) -> (r: String)
        ensures
            r@ == self.text(),
    {
        let a = hex_word(self.high, 16);
        let b = hex_word(self.middle, 16);
        let c = hex_word(self.low as u64, 8);
        text::join3(a.as_str(), b.as_str(), c.as_str())
    }
}

proof fn lemma_hex_text(a: nat, b: nat, digits: nat)
    requires
        a < vstd::arithmetic::power::pow(16, digits),
        b < vstd::arithmetic::power::pow(16, digits),
    ensures
        hex_text(a, digits).len() == digits,
        hex_text(b, digits).len() == digits,
        hex_text(a, digits) == hex_text(b, digits) ==> a == b,
    decreases digits,
{
    vstd::arithmetic::power::lemma_pow0(16);
    if digits > 0 {
        let d = (digits - 1) as nat;
        vstd::arithmetic::power::lemma_pow_adds(16, d, 1);
        vstd::arithmetic::power::lemma_pow1(16);
        let p = vstd::arithmetic::power::pow(16, d);
        assert(a / 16 < p) by (nonlinear_arith)
            requires
                a < p * 16,
        ;
        assert(b / 16 < p) by (nonlinear_arith)
            requires
                b < p * 16,
        ;
        lemma_hex_text(a / 16, b / 16, d);
        let s = hex_text(a, digits);
        let t = hex_text(b, digits);
        if s == t {
            assert(s.drop_last() =~= hex_text(a / 16, d));
            assert(t.drop_last() =~= hex_text(b / 16, d));
            assert(s.last() == t.last());
            assert(a % 16 == b % 16);
        }
    }
}

/// Law: a name has forty digits, and two names with the same digits are the
/// same.
pub proof fn law_id_text(a: ObjectId, b: ObjectId)
    ensures
        a.text().len() == 40,
        a.text() == b.text() ==> a == b,
{
    assert(vstd::arithmetic::power::pow(16, 16) == 0x1_0000_0000_0000_0000) by {
        reveal_with_fuel(vstd::arithmetic::power::pow, 17);
    }
    assert(vstd::arithmetic::power::pow(16, 8) == 0x1_0000_0000) by {
        reveal_with_fuel(vstd::arithmetic::power::pow, 9);
    }
    lemma_hex_text(a.high as nat, b.high as nat, 16);
    lemma_hex_text(a.middle as nat, b.middle as nat, 16);
    lemma_hex_text(a.low as nat, b.low as nat, 8);
    if a.text() == b.text() {
        assert(a.text().subrange(0, 16) =~= hex_text(a.high as nat, 16));
        assert(b.text().subrange(0, 16) =~= hex_text(b.high as nat, 16));
        assert(a.text().subrange(16, 32) =~= hex_text(a.middle as nat, 16));
        assert(b.text().subrange(16, 32) =~= hex_text(b.middle as nat, 16));
        assert(a.text().subrange(32, 40) =~= hex_text(a.low as nat, 8));
        assert(b.text().subrange(32, 40) =~= hex_text(b.low as nat, 8));
    }
}

/// The facts a graph row needs.
#[derive(Debug, Clone, PartialEq, Eq)]
pub struct CommitInfo {
    pub id: ObjectId,
    /// Every parent, first parent first. A merge has two or more.
    pub parents: Vec<ObjectId>,
    pub summary: String,
    /// What the message says below its summary.
    pub body: String,
    pub author: String,
    /// Commit time, seconds since the Unix epoch.
    pub time: i64,
}

/// The value of a hexadecimal digit.
pub open spec fn digit_value(c: char) -> int {
    if '0' <= c <= '9' {
        c as int - '0' as int
    } else {
        c as int - 'a' as int + 10
    }
}

/// The number that hexadecimal digits write, the highest first.
pub open spec fn hex_value(s: Seq<char>) -> int
    decreases s.len(),
{
    if s.len() == 0 {
        0
    } else {
        hex_value(s.drop_last()) * 16 + digit_value(s.last())
    }
}

proof fn lemma_hex_value(word: nat, digits: nat)
    requires
        word < vstd::arithmetic::power::pow(16, digits),
    ensures
        hex_text(word, digits).len() == digits,
        hex_value(hex_text(word, digits)) == word,
        forall|i: int|
            0 <= i < digits ==> {
                ||| '0' <= #[trigger] hex_text(word, digits)[i] <= '9'
                ||| 'a' <= hex_text(word, digits)[i] <= 'f'
            },
    decreases digits,
{
    vstd::arithmetic::power::lemma_pow0(16);
    if digits > 0 {
        let d = (digits - 1) as nat;
        vstd::arithmetic::power::lemma_pow_adds(16, d, 1);
        vstd::arithmetic::power::lemma_pow1(16);
        let p = vstd::arithmetic::power::pow(16, d);
        assert(word / 16 < p) by (nonlinear_arith)
            requires
                word < p * 16,
        ;
        lemma_hex_value(word / 16, d);
        let front = hex_text(word / 16, d);
        let s = hex_text(word, digits);
        assert(s.drop_last() =~= front);
        assert(digit_value(s.last()) == word % 16);
        assert forall|i: int| 0 <= i < digits implies {
            ||| '0' <= #[trigger] s[i] <= '9'
            ||| 'a' <= s[i] <= 'f'
        } by {
            if i < d {
                assert(front[i] == s[i]);
            }
        }
    }
}

/// Law: a commit's id is written as forty hexadecimal digits in lower case, which
/// read as the number it is, the highest digit first.
pub proof fn law_id_is_written_in_hexadecimal(a: ObjectId)
    ensures
        a.text().len() == 40,
        hex_value(a.text().subrange(0, 16)) == a.high,
        hex_value(a.text().subrange(16, 32)) == a.middle,
        hex_value(a.text().subrange(32, 40)) == a.low,
        forall|i: int|
            0 <= i < 40 ==> {
                ||| '0' <= #[trigger] a.text()[i] <= '9'
                ||| 'a' <= a.text()[i] <= 'f'
            },
{
    assert(vstd::arithmetic::power::pow(16, 16) == 0x1_0000_0000_0000_0000) by {
        reveal_with_fuel(vstd::arithmetic::power::pow, 17);
    }
    assert(vstd::arithmetic::power::pow(16, 8) == 0x1_0000_0000) by {
        reveal_with_fuel(vstd::arithmetic::power::pow, 9);
    }
    let (h, m, l) = (
        hex_text(a.high as nat, 16),
        hex_text(a.middle as nat, 16),
        hex_text(a.low as nat, 8),
    );
    lemma_hex_value(a.high as nat, 16);
    lemma_hex_value(a.middle as nat, 16);
    lemma_hex_value(a.low as nat, 8);
    assert(a.text().subrange(0, 16) =~= h);
    assert(a.text().subrange(16, 32) =~= m);
    assert(a.text().subrange(32, 40) =~= l);
    assert forall|i: int| 0 <= i < 40 implies {
        ||| '0' <= #[trigger] a.text()[i] <= '9'
        ||| 'a' <= a.text()[i] <= 'f'
    } by {
        if i < 16 {
            assert(a.text()[i] == h[i]);
        } else if i < 32 {
            assert(a.text()[i] == m[i - 16]);
        } else {
            assert(a.text()[i] == l[i - 32]);
        }
    }
}

} // verus!
