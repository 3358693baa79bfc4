//! Canonical decimal text for unsigned integers: the wire form of every
//! numeric field of a job.
//!
//! A number travels as its decimal digits alone: no sign, no leading zero, no
//! fraction, and `"0"` for zero. `decimal` says what that text is, `is_canonical`
//! and `value` read it back, and the two executable functions are proved
//! against them.

use vstd::prelude::*;
use vstd::string::*;

verus! {

/// The character that stands for the digit `d`; `'0'` for anything above nine.
pub open spec fn digit_char(d: nat) -> char {
    if d == 1 {
        '1'
    } else if d == 2 {
        '2'
    } else if d == 3 {
        '3'
    } else if d == 4 {
        '4'
    } else if d == 5 {
        '5'
    } else if d == 6 {
        '6'
    } else if d == 7 {
        '7'
    } else if d == 8 {
        '8'
    } else if d == 9 {
        '9'
    } else {
        '0'
    }
}

/// Whether `c` is one of the ten decimal digits.
pub open spec fn is_digit(c: char) -> bool {
    '0' <= c <= '9'
}

/// The number that the digit `c` stands for; zero for any other character.
pub open spec fn digit_value(c: char) -> nat {
    if c == '1' {
        1
    } else if c == '2' {
        2
    } else if c == '3' {
        3
    } else if c == '4' {
        4
    } else if c == '5' {
        5
    } else if c == '6' {
        6
    } else if c == '7' {
        7
    } else if c == '8' {
        8
    } else if c == '9' {
        9
    } else {
        0
    }
}

/// The canonical decimal text of `n`: no sign, no leading zero, `"0"` for zero.
pub open spec fn decimal(n: nat) -> Seq<char>
    decreases n,
{
    if n < 10 {
        seq![digit_char(n)]
    } else {
        decimal(n / 10).push(digit_char(n % 10))
    }
}

/// Whether `s` is the canonical text of some number: at least one character,
/// digits only, and no leading zero unless the text is `"0"` itself.
pub open spec fn is_canonical(s: Seq<char>) -> bool {
    &&& s.len() > 0
    &&& forall|i: int| 0 <= i < s.len() ==> is_digit(#[trigger] s[i])
    &&& (s.len() > 1 ==> s[0] != '0')
}

/// The number that a run of digits spells, most significant digit first.
pub open spec fn value(s: Seq<char>) -> nat
    decreases s.len(),
{
    if s.len() == 0 {
        0
    } else {
        value(s.drop_last()) * 10 + digit_value(s.last())
    }
}

/// What decoding `s` gives: the number it spells, where `s` is canonical and
/// the number fits in 64 bits; nothing otherwise.
pub open spec fn decoded(s: Seq<char>) -> Option<u64> {
    if is_canonical(s) && value(s) <= u64::MAX {
        Some(value(s) as u64)
    } else {
        None
    }
}

/// A run of digits that does not start with `'0'` spells a positive number.
proof fn lemma_value_positive(s: Seq<char>)
    requires
        s.len() > 0,
        forall|i: int| 0 <= i < s.len() ==> is_digit(#[trigger] s[i]),
        s[0] != '0',
    ensures
        value(s) > 0,
    decreases s.len(),
{
    if s.len() == 1 {
        assert(s.drop_last().len() == 0);
        assert(value(s.drop_last()) == 0);
        assert(is_digit(s[0]));
    } else {
        let p = s.drop_last();
        assert forall|i: int| 0 <= i < p.len() implies is_digit(#[trigger] p[i]) by {
            assert(p[i] == s[i]);
        }
        assert(p[0] == s[0]);
        lemma_value_positive(p);
    }
}

/// The text of a number is canonical and spells that number.
pub proof fn lemma_decimal_reads_back(n: nat)
    ensures
        is_canonical(decimal(n)),
        value(decimal(n)) == n,
        n > 0 ==> decimal(n)[0] != '0',
    decreases n,
{
    if n < 10 {
        let s = decimal(n);
        assert(s.len() == 1);
        assert(s[0] == digit_char(n));
        assert(s.drop_last().len() == 0);
        assert(value(s.drop_last()) == 0);
        assert(s.last() == digit_char(n));
    } else {
        let p = decimal(n / 10);
        let s = decimal(n);
        lemma_decimal_reads_back(n / 10);
        assert(s == p.push(digit_char(n % 10)));
        assert(s.drop_last() =~= p);
        assert(s.last() == digit_char(n % 10));
        assert(s[0] == p[0]);
        assert forall|i: int| 0 <= i < s.len() implies is_digit(#[trigger] s[i]) by {
            if i < p.len() {
                assert(s[i] == p[i]);
            }
        }
    }
}

/// A canonical text is the text of the number it spells: no two canonical
/// texts spell the same number.
pub proof fn lemma_canonical_is_decimal(s: Seq<char>)
    requires
        is_canonical(s),
    ensures
        decimal(value(s)) == s,
    decreases s.len(),
{
    let p = s.drop_last();
    if s.len() == 1 {
        assert(p.len() == 0);
        assert(value(p) == 0);
        assert(is_digit(s[0]));
        assert(value(s) == digit_value(s[0]));
        assert(decimal(value(s)) =~= s);
    } else {
        assert forall|i: int| 0 <= i < p.len() implies is_digit(#[trigger] p[i]) by {
            assert(p[i] == s[i]);
        }
        assert(p[0] == s[0]);
        assert(is_digit(s.last()));
        lemma_value_positive(p);
        lemma_canonical_is_decimal(p);
        let v = value(s);
        assert(v == value(p) * 10 + digit_value(s.last()));
        assert(v >= 10);
        assert(v / 10 == value(p));
        assert(v % 10 == digit_value(s.last()));
        assert(digit_char(digit_value(s.last())) == s.last());
        assert(decimal(v) == decimal(v / 10).push(digit_char(v % 10)));
        assert(decimal(v) =~= s);
    }
}

/// Encoding then decoding gives the number back, for every 64-bit value, zero
/// and the largest included.
pub proof fn lemma_round_trip(n: u64)
    ensures
        decoded(decimal(n as nat)) == Some(n),
{
    lemma_decimal_reads_back(n as nat);
}

/// Decoding accepts a text exactly when it is the canonical text of a 64-bit
/// number, and then gives that number.
pub proof fn lemma_decoded_iff_decimal(s: Seq<char>, n: u64)
    ensures
        decoded(s) == Some(n) <==> s == decimal(n as nat),
{
    if decoded(s) == Some(n) {
        lemma_canonical_is_decimal(s);
    }
    if s == decimal(n as nat) {
        lemma_decimal_reads_back(n as nat);
    }
}

/// The value of a run of digits is at least that of each of its prefixes.
proof fn lemma_value_prefix(s: Seq<char>, k: int)
    requires
        0 <= k <= s.len(),
    ensures
        value(s.subrange(0, k)) <= value(s),
    decreases s.len() - k,
{
    if k == s.len() {
        assert(s.subrange(0, k) =~= s);
    } else {
        lemma_value_prefix(s, k + 1);
        let q = s.subrange(0, k + 1);
        assert(q.drop_last() =~= s.subrange(0, k));
        assert(value(q) == value(q.drop_last()) * 10 + digit_value(q.last()));
    }
}

/// The one-character text of a digit below ten.
fn digit_text(d: u64) -> (r: &'static str)
    requires
        d < 10,
    ensures
        r@ == seq![digit_char(d as nat)],
{
    proof {
        reveal_strlit("0");
        reveal_strlit("1");
        reveal_strlit("2");
        reveal_strlit("3");
        reveal_strlit("4");
        reveal_strlit("5");
        reveal_strlit("6");
        reveal_strlit("7");
        reveal_strlit("8");
        reveal_strlit("9");
    }
    let r = if d == 0 {
        "0"
    } else if d == 1 {
        "1"
    } else if d == 2 {
        "2"
    } else if d == 3 {
        "3"
    } else if d == 4 {
        "4"
    } else if d == 5 {
        "5"
    } else if d == 6 {
        "6"
    } else if d == 7 {
        "7"
    } else if d == 8 {
        "8"
    } else {
        "9"
    };
    assert(r@ =~= seq![digit_char(d as nat)]);
    r
}

/// Writes `n` as its canonical decimal text.
pub fn encode_u64(n: u64) -> (s: String)
    ensures
        s@ == decimal(n as nat),
    decreases n,
{
    if n < 10 {
        let mut s = String::new();
        s.append(digit_text(n));
        assert(s@ =~= decimal(n as nat));
        s
    } else {
        let mut s = encode_u64(n / 10);
        s.append(digit_text(n % 10));
        assert(s@ =~= decimal(n as nat));
        s
    }
}

/// Reads a canonical decimal text. Anything else is refused: the empty text,
/// a sign, a leading zero, a character that is no digit, and a number above
/// the largest 64-bit value.
pub fn decode_u64(s: &str) -> (r: Option<u64>)
    ensures
        r == decoded(s@),
{
    if !s.is_ascii() {
        proof {
            if is_canonical(s@) {
                assert forall|i: int| 0 <= i < s@.len() implies '\0' <= #[trigger] s@[i] <= '\u{7f}' by {
                    assert(is_digit(s@[i]));
                }
                assert(false);
            }
        }
        return None;
    }
    let bytes = s.as_bytes();
    let len: usize = bytes.len();
    proof {
        is_ascii_spec_bytes(s);
        assert(bytes@.len() == s@.len());
        assert forall|j: int| 0 <= j < s@.len() implies bytes@[j] == (#[trigger] s@[j]) as u8 by {}
    }
    if len == 0 {
        return None;
    }
    if len > 1 && bytes[0] == 48 {
        assert(s@[0] as u8 == 48);
        assert(s@[0] == '0');
        return None;
    }
    assert(len > 1 ==> s@[0] != '0');
    let mut acc: u64 = 0;
    let mut i: usize = 0;
    while i < len
        invariant
            0 <= i <= len,
            len == s@.len(),
            len == bytes@.len(),
            forall|j: int| 0 <= j < len ==> bytes@[j] == (#[trigger] s@[j]) as u8,
            forall|j: int| 0 <= j < len ==> '\0' <= #[trigger] s@[j] <= '\u{7f}',
            len > 1 ==> s@[0] != '0',
            forall|j: int| 0 <= j < i ==> is_digit(#[trigger] s@[j]),
            acc == value(s@.subrange(0, i as int)),
        decreases len - i,
    {
        let b: u8 = bytes[i];
        let ghost c = s@[i as int];
        assert(b == c as u8 && '\0' <= c <= '\u{7f}');
        if b < 48 || b > 57 {
            assert(!is_digit(c));
            return None;
        }
        let d: u64 = (b - 48) as u64;
        assert(is_digit(c) && digit_value(c) == d);
        proof {
            let q = s@.subrange(0, i as int + 1);
            assert(q.drop_last() =~= s@.subrange(0, i as int));
            assert(q.last() == c);
            assert(value(q) == acc * 10 + d);
            lemma_value_prefix(s@, i as int + 1);
        }
        if acc > (u64::MAX - d) / 10 {
            return None;
        }
        acc = acc * 10 + d;
        i = i + 1;
    }
    assert(s@.subrange(0, len as int) =~= s@);
    Some(acc)
}

} // verus!
