//! Text forms of numbers, byte strings and strings, and the functions that
//! write and read them.
//!
//! Everything the ledger hashes is first written as text.  The forms are kept
//! simple and unambiguous: numbers are written in decimal without leading
//! zeros, bytes as two hexadecimal digits each, and a string as its length
//! in characters, a colon, and the characters themselves.
use vstd::prelude::*;
use vstd::string::*;

verus! {

/// The character for the decimal digit `d`.
pub open spec fn digit_char(d: nat) -> char {
    ((48 + d) as u8) as char
}

/// Whether `c` is one of `0` to `9`.
pub open spec fn is_digit(c: char) -> bool {
    '0' <= c <= '9'
}

/// The value of the decimal digit `c`.
pub open spec fn digit_value(c: char) -> nat {
    (c as nat - 48) as nat
}

/// `n` in decimal, without leading zeros.
pub open spec fn decimal(n: nat) -> Seq<char>
    decreases n,
{
    if n < 10 {
        seq![digit_char(n)]
    } else {
        decimal(n / 10).push(digit_char(n % 10))
    }
}

/// Whether every character of `s` is a decimal digit.
pub open spec fn all_digits(s: Seq<char>) -> bool {
    forall|i: int| 0 <= i < s.len() ==> is_digit(#[trigger] s[i])
}

/// The number that a sequence of decimal digits denotes; 0 for the empty
/// sequence.
pub open spec fn digits_value(s: Seq<char>) -> nat
    decreases s.len(),
{
    if s.len() == 0 {
        0
    } else {
        digits_value(s.drop_last()) * 10 + digit_value(s.last())
    }
}

/// What is left of `s` once one leading `+` is taken away.
pub open spec fn unsigned_part(s: Seq<char>) -> Seq<char> {
    if s.len() > 0 && s[0] == '+' {
        s.drop_first()
    } else {
        s
    }
}

/// The number that `s` denotes as a `u128`: an optional `+`, then at least one
/// decimal digit, with a value that fits.
pub open spec fn parsed_u128(s: Seq<char>) -> Option<u128> {
    let digits = unsigned_part(s);
    if digits.len() > 0 && all_digits(digits) && digits_value(digits) <= u128::MAX {
        Some(digits_value(digits) as u128)
    } else {
        None
    }
}

/// The character for the hexadecimal digit `d`, in upper or lower case.
pub open spec fn hex_digit_char(d: nat, upper: bool) -> char {
    if d < 10 {
        ((48 + d) as u8) as char
    } else if upper {
        ((55 + d) as u8) as char
    } else {
        ((87 + d) as u8) as char
    }
}

/// `bytes` in hexadecimal: two digits for each byte, the high one first.
pub open spec fn hex_text(bytes: Seq<u8>, upper: bool) -> Seq<char> {
    Seq::new(
        2 * bytes.len(),
        |i: int|
            if i % 2 == 0 {
                hex_digit_char((bytes[i / 2] / 16) as nat, upper)
            } else {
                hex_digit_char((bytes[i / 2] % 16) as nat, upper)
            },
    )
}

/// The text form of a string: its length in characters, a colon, and the
/// characters.
pub open spec fn string_text(s: Seq<char>) -> Seq<char> {
    decimal(s.len()) + seq![':'] + s
}

/// The characters of an optional string.
pub open spec fn optional_view(s: Option<String>) -> Option<Seq<char>> {
    match s {
        Some(t) => Some(t@),
        None => None,
    }
}

/// The text form of an optional string.
pub open spec fn optional_string_text(s: Option<Seq<char>>) -> Seq<char> {
    match s {
        Some(t) => "Some("@ + string_text(t) + ")"@,
        None => "None"@,
    }
}

/// A character's code is a natural number below 0x110000.
proof fn lemma_char_code(c: char)
    ensures
        0 <= c as int <= 0x10FFFF,
{
}

/// The digits of a decimal text are digits, and they denote the number that
/// was written.
pub proof fn lemma_decimal_digits(n: nat)
    ensures
        decimal(n).len() > 0,
        all_digits(decimal(n)),
        digits_value(decimal(n)) == n,
        decimal(n)[0] != '+',
    decreases n,
{
    if n < 10 {
        let s = decimal(n);
        assert(s.len() == 1);
        assert(s.drop_last().len() == 0);
        assert(digits_value(s.drop_last()) == 0);
        assert(s.last() == digit_char(n));
    } else {
        lemma_decimal_digits(n / 10);
        let s = decimal(n);
        let head = decimal(n / 10);
        assert(s.drop_last() =~= head);
        assert(s.last() == digit_char(n % 10));
        assert forall|i: int| 0 <= i < s.len() implies is_digit(#[trigger] s[i]) by {
            if i < head.len() {
                assert(s[i] == head[i]);
            }
        }
        assert(s[0] == head[0]);
    }
}

/// Different numbers are written differently.
pub proof fn lemma_decimal_is_injective(a: nat, b: nat)
    requires
        decimal(a) == decimal(b),
    ensures
        a == b,
{
    lemma_decimal_digits(a);
    lemma_decimal_digits(b);
}

/// A number that is followed by something that is no digit can be read in
/// one way only: if two such texts are the same, the numbers are the same,
/// and so is what follows them.
pub proof fn lemma_decimal_is_readable(a: nat, after_a: Seq<char>, b: nat, after_b: Seq<char>)
    requires
        decimal(a) + after_a == decimal(b) + after_b,
        after_a.len() > 0 ==> !is_digit(after_a[0]),
        after_b.len() > 0 ==> !is_digit(after_b[0]),
    ensures
        a == b,
        after_a == after_b,
{
    lemma_decimal_digits(a);
    lemma_decimal_digits(b);
    let x = decimal(a) + after_a;
    let y = decimal(b) + after_b;
    let m = decimal(a).len() as int;
    let n = decimal(b).len() as int;
    if m < n {
        assert(x.len() == y.len());
        assert(x[m] == after_a[0]);
        assert(y[m] == decimal(b)[m]);
        assert(is_digit(decimal(b)[m]));
    } else if n < m {
        assert(x.len() == y.len());
        assert(y[n] == after_b[0]);
        assert(x[n] == decimal(a)[n]);
        assert(is_digit(decimal(a)[n]));
    }
    assert(decimal(a) =~= x.take(m));
    assert(decimal(b) =~= y.take(n));
    assert(after_a =~= x.skip(m));
    assert(after_b =~= y.skip(n));
    lemma_decimal_is_injective(a, b);
}

/// The text form of a string can be read in one way only, whatever follows
/// it: if two such texts are the same, the strings are the same, and so is
/// what follows them.
pub proof fn lemma_string_text_is_readable(
    a: Seq<char>,
    after_a: Seq<char>,
    b: Seq<char>,
    after_b: Seq<char>,
)
    requires
        string_text(a) + after_a == string_text(b) + after_b,
    ensures
        a == b,
        after_a == after_b,
{
    let tail_a = seq![':'] + a + after_a;
    let tail_b = seq![':'] + b + after_b;
    assert(string_text(a) + after_a =~= decimal(a.len()) + tail_a);
    assert(string_text(b) + after_b =~= decimal(b.len()) + tail_b);
    assert(tail_a[0] == ':');
    assert(tail_b[0] == ':');
    lemma_decimal_is_readable(a.len(), tail_a, b.len(), tail_b);
    assert(a =~= tail_a.subrange(1, 1 + a.len() as int));
    assert(b =~= tail_b.subrange(1, 1 + b.len() as int));
    assert(after_a =~= tail_a.skip(1 + a.len() as int));
    assert(after_b =~= tail_b.skip(1 + b.len() as int));
}

/// Reading back what was written gives the number that was written.
pub proof fn lemma_parse_decimal(n: u128)
    ensures
        parsed_u128(decimal(n as nat)) == Some(n),
{
    lemma_decimal_digits(n as nat);
}

/// The value of a sequence of digits is at least the value of each of its
/// prefixes.
proof fn lemma_digits_value_prefix(s: Seq<char>, k: int)
    requires
        0 <= k <= s.len(),
    ensures
        digits_value(s.take(k)) <= digits_value(s),
    decreases s.len() - k,
{
    if k == s.len() {
        assert(s.take(k) =~= s);
    } else {
        lemma_digits_value_prefix(s, k + 1);
        assert(s.take(k + 1).drop_last() =~= s.take(k));
    }
}

/// Three texts that are appended to a start one after the other are, taken
/// together, appended to it.
pub proof fn lemma_appended_three(start: Seq<char>, a: Seq<char>, b: Seq<char>, c: Seq<char>)
    ensures
        start + a + b + c == start + (a + b + c),
{
    assert(start + a + b + c =~= start + (a + b + c));
}

/// Five texts that are appended to a start one after the other are, taken
/// together, appended to it.
pub proof fn lemma_appended_five(
    start: Seq<char>,
    a: Seq<char>,
    b: Seq<char>,
    c: Seq<char>,
    d: Seq<char>,
    e: Seq<char>,
)
    ensures
        start + a + b + c + d + e == start + (a + b + c + d + e),
{
    assert(start + a + b + c + d + e =~= start + (a + b + c + d + e));
}

/// Seven texts that are appended to a start one after the other are, taken
/// together, appended to it.
pub proof fn lemma_appended_seven(
    start: Seq<char>,
    a: Seq<char>,
    b: Seq<char>,
    c: Seq<char>,
    d: Seq<char>,
    e: Seq<char>,
    f: Seq<char>,
    g: Seq<char>,
)
    ensures
        start + a + b + c + d + e + f + g == start + (a + b + c + d + e + f + g),
{
    assert(start + a + b + c + d + e + f + g =~= start + (a + b + c + d + e + f + g));
}

/// Nine texts that are appended to a start one after the other are, taken
/// together, appended to it.
pub proof fn lemma_appended_nine(
    start: Seq<char>,
    a: Seq<char>,
    b: Seq<char>,
    c: Seq<char>,
    d: Seq<char>,
    e: Seq<char>,
    f: Seq<char>,
    g: Seq<char>,
    h: Seq<char>,
    i: Seq<char>,
)
    ensures
        start + a + b + c + d + e + f + g + h + i == start + (a + b + c + d + e + f + g + h + i),
{
    assert(start + a + b + c + d + e + f + g + h + i =~= start + (a + b + c + d + e + f + g + h + i));
}

/// Eleven texts that are appended to a start one after the other are, taken
/// together, appended to it.
pub proof fn lemma_appended_eleven(
    start: Seq<char>,
    a: Seq<char>,
    b: Seq<char>,
    c: Seq<char>,
    d: Seq<char>,
    e: Seq<char>,
    f: Seq<char>,
    g: Seq<char>,
    h: Seq<char>,
    i: Seq<char>,
    j: Seq<char>,
    k: Seq<char>,
)
    ensures
        start + a + b + c + d + e + f + g + h + i + j + k == start + (a + b + c + d + e + f + g
            + h + i + j + k),
{
    assert(start + a + b + c + d + e + f + g + h + i + j + k =~= start + (a + b + c + d + e + f
        + g + h + i + j + k));
}

/// The text of the digit `d`: one of `0` to `9` and, from ten on, of `A` to
/// `F`.
fn digit_text(d: u8) -> (r: &'static str)
    requires
        d < 16,
    ensures
        r@ == seq![hex_digit_char(d as nat, true)],
{
    proof {
        reveal_strlit("0");
        reveal_strlit("1");
        reveal_strlit("2");
        reveal_strlit("3");
        reveal_strlit("4");
        reveal_strlit("5");
        reveal_strlit("6");
        reveal_strlit("7");
        reveal_strlit("8");
        reveal_strlit("9");
        reveal_strlit("A");
        reveal_strlit("B");
        reveal_strlit("C");
        reveal_strlit("D");
        reveal_strlit("E");
        reveal_strlit("F");
    }
    let r = match d {
        0 => "0",
        1 => "1",
        2 => "2",
        3 => "3",
        4 => "4",
        5 => "5",
        6 => "6",
        7 => "7",
        8 => "8",
        9 => "9",
        10 => "A",
        11 => "B",
        12 => "C",
        13 => "D",
        14 => "E",
        _ => "F",
    };
    assert(r@ =~= seq![hex_digit_char(d as nat, true)]);
    r
}

/// Appends the decimal form of `n` to `out`.
pub fn push_decimal(out: &mut String, n: u128)
    ensures
        final(out)@ == old(out)@ + decimal(n as nat),
    decreases n,
{
    if n >= 10 {
        push_decimal(out, n / 10);
    }
    let d: u8 = (n % 10) as u8;
    out.append(digit_text(d));
    proof {
        let digit = seq![digit_char(d as nat)];
        if n < 10 {
            assert(decimal(n as nat) =~= digit);
        } else {
            assert(decimal(n as nat) =~= decimal((n / 10) as nat) + digit);
            assert((old(out)@ + decimal((n / 10) as nat)) + digit =~= old(out)@ + (decimal(
                (n / 10) as nat,
            ) + digit));
        }
    }
}

/// `n` in decimal.
pub fn decimal_string(n: u128) -> (r: String)
    ensures
        r@ == decimal(n as nat),
{
    let mut out = String::new();
    push_decimal(&mut out, n);
    assert(Seq::<char>::empty() + decimal(n as nat) =~= decimal(n as nat));
    out
}

/// Reads a `u128` from its decimal form.  One leading `+` is accepted; an
/// empty text, any other character, and a value that does not fit are not.
pub fn parse_u128(s: &str) -> (r: Option<u128>)
    ensures
        r == parsed_u128(s@),
{
    if !s.is_ascii() {
        proof {
            assert(!vstd::utf8::is_ascii_chars(s@));
            let bad = choose|i: int| 0 <= i < s@.len() && !('\0' <= #[trigger] s@[i] <= '\u{7f}');
            let digits = unsigned_part(s@);
            if bad == 0 {
                assert(s@[0] != '+');
                assert(!is_digit(digits[0]));
            } else if s@[0] == '+' {
                assert(digits[bad - 1] == s@[bad]);
                assert(!is_digit(digits[bad - 1]));
            } else {
                assert(!is_digit(digits[bad]));
            }
        }
        return None;
    }
    let bytes = s.as_bytes();
    proof {
        vstd::string::is_ascii_spec_bytes(s);
        vstd::utf8::is_ascii_chars_nat_bound(s@);
    }
    assert(bytes@.len() == s@.len());
    assert forall|i: int| 0 <= i < s@.len() implies (#[trigger] s@[i]) as nat == bytes@[i] as nat by {
        lemma_char_code(s@[i]);
        assert(bytes@[i] == s@[i] as u8);
        assert((s@[i] as nat) < 128);
    }
    let start: usize = if bytes.len() > 0 && bytes[0] == 43 {
        1
    } else {
        0
    };
    let ghost digits = unsigned_part(s@);
    assert(digits =~= s@.subrange(start as int, s@.len() as int));
    if start == bytes.len() {
        return None;
    }
    let mut value: u128 = 0;
    let mut i: usize = start;
    while i < bytes.len()
        invariant
            start <= i <= bytes.len(),
            bytes@.len() == s@.len(),
            forall|j: int| 0 <= j < s@.len() ==> (#[trigger] s@[j]) as nat == bytes@[j] as nat,
            digits == unsigned_part(s@),
            digits == s@.subrange(start as int, s@.len() as int),
            all_digits(digits.take(i - start)),
            value == digits_value(digits.take(i - start)),
        decreases bytes.len() - i,
    {
        let b: u8 = bytes[i];
        let ghost seen = digits.take(i - start);
        let ghost next = digits.take(i - start + 1);
        proof {
            lemma_char_code(s@[i as int]);
            assert(digits[i - start] == s@[i as int]);
            assert(next.drop_last() =~= seen);
            assert(next.last() == s@[i as int]);
        }
        if b < 48 || b > 57 {
            assert(!is_digit(digits[i - start]));
            return None;
        }
        let d: u128 = (b - 48) as u128;
        assert(d == digit_value(s@[i as int]));
        let widened = match value.checked_mul(10) {
            Some(w) => w.checked_add(d),
            None => None,
        };
        match widened {
            Some(v) => {
                value = v;
            },
            None => {
                proof {
                    assert(digits_value(next) > u128::MAX);
                    lemma_digits_value_prefix(digits, i - start + 1);
                }
                return None;
            },
        }
        proof {
            assert forall|j: int| 0 <= j < next.len() implies is_digit(#[trigger] next[j]) by {
                if j < seen.len() {
                    assert(next[j] == seen[j]);
                }
            }
        }
        i = i + 1;
    }
    assert(digits.take(i - start) =~= digits);
    Some(value)
}

/// A hexadecimal text has two characters for each byte, all of them ASCII.
pub proof fn lemma_hex_text_is_ascii(bytes: Seq<u8>, upper: bool)
    ensures
        hex_text(bytes, upper).len() == 2 * bytes.len(),
        vstd::utf8::is_ascii_chars(hex_text(bytes, upper)),
{
    let text = hex_text(bytes, upper);
    assert forall|i: int| 0 <= i < text.len() implies '\0' <= #[trigger] text[i] <= '\u{7f}' by {
        let b = bytes[i / 2];
        assert(b / 16 < 16 && b % 16 < 16);
    }
}

/// Appends `bytes` in upper-case hexadecimal.
pub fn push_hex_upper(out: &mut String, bytes: &[u8])
    ensures
        final(out)@ == old(out)@ + hex_text(bytes@, true),
{
    let mut i: usize = 0;
    assert(out@ =~= old(out)@ + hex_text(bytes@, true).take(0));
    while i < bytes.len()
        invariant
            i <= bytes.len(),
            out@ == old(out)@ + hex_text(bytes@, true).take(2 * i),
        decreases bytes.len() - i,
    {
        let b: u8 = bytes[i];
        out.append(digit_text(b / 16));
        out.append(digit_text(b % 16));
        proof {
            let text = hex_text(bytes@, true);
            let high = seq![hex_digit_char((b / 16) as nat, true)];
            let low = seq![hex_digit_char((b % 16) as nat, true)];
            assert(text[2 * i] == high[0]);
            assert(text[2 * i + 1] == low[0]);
            assert(text.take(2 * i + 2) =~= text.take(2 * i) + high + low);
            assert(old(out)@ + text.take(2 * i) + high + low =~= old(out)@ + text.take(2 * i + 2));
        }
        i = i + 1;
    }
    assert(hex_text(bytes@, true).take(2 * i) =~= hex_text(bytes@, true));
}

/// `bytes` in upper-case hexadecimal.
pub fn hex_upper(bytes: &[u8]) -> (r: String)
    ensures
        r@ == hex_text(bytes@, true),
{
    let mut out = String::new();
    push_hex_upper(&mut out, bytes);
    assert(Seq::<char>::empty() + hex_text(bytes@, true) =~= hex_text(bytes@, true));
    out
}

/// Appends the text form of `s`.
pub fn push_string(out: &mut String, s: &str)
    ensures
        final(out)@ == old(out)@ + string_text(s@),
{
    let n: usize = s.unicode_len();
    push_decimal(out, n as u128);
    out.append(":");
    out.append(s);
    proof {
        reveal_strlit(":");
        assert(":"@ =~= seq![':']);
        lemma_appended_three(old(out)@, decimal(s@.len()), seq![':'], s@);
    }
}

/// Appends the text form of an optional string.
pub fn push_optional_string(out: &mut String, s: &Option<String>)
    ensures
        final(out)@ == old(out)@ + optional_string_text(optional_view(*s)),
{
    match s {
        Some(t) => {
            out.append("Some(");
            push_string(out, t.as_str());
            out.append(")");
            proof {
                lemma_appended_three(old(out)@, "Some("@, string_text(t@), ")"@);
            }
        },
        None => {
            out.append("None");
        },
    }
}

/// Whether two optional strings hold the same characters, or are both
/// absent.
pub fn same_optional_string(a: &Option<String>, b: &Option<String>) -> (r: bool)
    ensures
        r == (optional_view(*a) == optional_view(*b)),
{
    match (a, b) {
        (Some(x), Some(y)) => *x == *y,
        (None, None) => true,
        _ => false,
    }
}

} // verus!
