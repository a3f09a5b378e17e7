use vstd::prelude::*;
use vstd::string::*;

verus! {

/// The decimal digit character for `d < 10`.
pub open spec fn digit_char(d: nat) -> char {
    if d == 0 { '0' }
    else if d == 1 { '1' }
    else if d == 2 { '2' }
    else if d == 3 { '3' }
    else if d == 4 { '4' }
    else if d == 5 { '5' }
    else if d == 6 { '6' }
    else if d == 7 { '7' }
    else if d == 8 { '8' }
    else { '9' }
}

/// Decimal digits of a natural number, most significant first, without
/// leading zeros (zero is written `0`).
pub open spec fn digits(n: nat) -> Seq<char>
    decreases n,
{
    if n < 10 {
        seq![digit_char(n)]
    } else {
        digits(n / 10).push(digit_char(n % 10))
    }
}

/// Decimal text of an integer, with a leading `-` for negative values.
pub open spec fn decimal(i: int) -> Seq<char> {
    if i < 0 {
        seq!['-'] + digits((-i) as nat)
    } else {
        digits(i as nat)
    }
}

/// The lowercase hexadecimal digit character for `d < 16`.
pub open spec fn hex_char(d: nat) -> char {
    if d < 10 { digit_char(d) }
    else if d == 10 { 'a' }
    else if d == 11 { 'b' }
    else if d == 12 { 'c' }
    else if d == 13 { 'd' }
    else if d == 14 { 'e' }
    else { 'f' }
}

/// Lowercase hexadecimal digits of a natural number, without leading zeros.
pub open spec fn hex_digits(n: nat) -> Seq<char>
    decreases n,
{
    if n < 16 {
        seq![hex_char(n)]
    } else {
        hex_digits(n / 16).push(hex_char(n % 16))
    }
}

/// An ASCII control character other than the ones with a short escape.
pub open spec fn is_control(c: char) -> bool {
    (c as int) < 0x20 || c as int == 0x7f
}

/// What `char::escape_debug` writes for a character.
pub uninterp spec fn debug_escape(c: char) -> Seq<char>;

/// The text that stands for one character inside a quoted string, as Rust's
/// `Debug` writes it: in ASCII, quotes, backslashes, NUL and the common
/// control characters get short escapes, the other control characters a
/// `\u{..}` escape, and every other character stands for itself; a
/// character outside ASCII is written as `char::escape_debug` writes it.
pub open spec fn escaped_char(c: char) -> Seq<char> {
    if c == '"' {
        seq!['\\', '"']
    } else if c == '\\' {
        seq!['\\', '\\']
    } else if c == '\n' {
        seq!['\\', 'n']
    } else if c == '\r' {
        seq!['\\', 'r']
    } else if c == '\t' {
        seq!['\\', 't']
    } else if c == '\0' {
        seq!['\\', '0']
    } else if is_control(c) {
        seq!['\\', 'u', '{'] + hex_digits(c as nat) + seq!['}']
    } else if (c as int) >= 0x80 {
        debug_escape(c)
    } else {
        seq![c]
    }
}

/// Calls `char::escape_debug` and collects what it yields. Its
/// documentation says only that it escapes characters as the `Debug`
/// implementations of `str` and `char` do (for a character outside ASCII
/// the two agree: an escape for grapheme extenders and for characters that
/// are not printable, the character itself otherwise); what it writes is
/// left to the name `debug_escape`.
#[verifier::external_body]
fn escape_debug_text(c: char) -> (r: String)
    ensures
        r@ == debug_escape(c),
{
    c.escape_debug().to_string()
}

/// The characters of a string, each as it stands inside a quoted string.
pub open spec fn escaped(s: Seq<char>) -> Seq<char>
    decreases s.len(),
{
    if s.len() == 0 {
        Seq::empty()
    } else {
        escaped(s.drop_last()) + escaped_char(s.last())
    }
}

/// A character sequence written between double quotes, escaped.
pub open spec fn quoted(s: Seq<char>) -> Seq<char> {
    seq!['"'] + escaped(s) + seq!['"']
}

/// Whether two strings hold the same characters.
pub fn str_equal(a: &str, b: &str) -> (r: bool)
    ensures
        r == (a@ == b@),
{
    let n = a.unicode_len();
    let m = b.unicode_len();
    if n != m {
        return false;
    }
    let mut i: usize = 0;
    while i < n
        invariant
            n == a@.len(),
            m == b@.len(),
            n == m,
            i <= n,
            forall|j: int| 0 <= j < i ==> a@[j] == b@[j],
        decreases n - i,
    {
        if a.get_char(i) != b.get_char(i) {
            return false;
        }
        i = i + 1;
    }
    assert(a@ =~= b@);
    true
}

/// The one-character text of a decimal digit.
fn digit_str(d: u128) -> (r: &'static str)
    requires
        d < 10,
    ensures
        r@ == seq![digit_char(d as nat)],
{
    if d == 0 {
        proof { reveal_strlit("0"); }
        "0"
    } else if d == 1 {
        proof { reveal_strlit("1"); }
        "1"
    } else if d == 2 {
        proof { reveal_strlit("2"); }
        "2"
    } else if d == 3 {
        proof { reveal_strlit("3"); }
        "3"
    } else if d == 4 {
        proof { reveal_strlit("4"); }
        "4"
    } else if d == 5 {
        proof { reveal_strlit("5"); }
        "5"
    } else if d == 6 {
        proof { reveal_strlit("6"); }
        "6"
    } else if d == 7 {
        proof { reveal_strlit("7"); }
        "7"
    } else if d == 8 {
        proof { reveal_strlit("8"); }
        "8"
    } else {
        proof { reveal_strlit("9"); }
        "9"
    }
}

/// The one-character text of a hexadecimal digit.
fn hex_str(d: u32) -> (r: &'static str)
    requires
        d < 16,
    ensures
        r@ == seq![hex_char(d as nat)],
{
    if d < 10 {
        digit_str(d as u128)
    } else if d == 10 {
        proof { reveal_strlit("a"); }
        "a"
    } else if d == 11 {
        proof { reveal_strlit("b"); }
        "b"
    } else if d == 12 {
        proof { reveal_strlit("c"); }
        "c"
    } else if d == 13 {
        proof { reveal_strlit("d"); }
        "d"
    } else if d == 14 {
        proof { reveal_strlit("e"); }
        "e"
    } else {
        proof { reveal_strlit("f"); }
        "f"
    }
}

/// Appends the lowercase hexadecimal digits of `n`.
fn push_hex(out: &mut String, n: u32)
    ensures
        final(out)@ == old(out)@ + hex_digits(n as nat),
    decreases n,
{
    if n >= 16 {
        push_hex(out, n / 16);
    }
    out.append(hex_str(n % 16));
    proof {
        assert(hex_digits(n as nat) == if n < 16 {
            seq![hex_char(n as nat)]
        } else {
            hex_digits((n / 16) as nat).push(hex_char((n % 16) as nat))
        });
    }
    assert(final(out)@ =~= old(out)@ + hex_digits(n as nat));
}

/// Appends the decimal digits of `n`.
pub fn push_digits(out: &mut String, n: u128)
    ensures
        final(out)@ == old(out)@ + digits(n as nat),
    decreases n,
{
    if n >= 10 {
        push_digits(out, n / 10);
    }
    out.append(digit_str(n % 10));
    proof {
        assert(digits(n as nat) == if n < 10 {
            seq![digit_char(n as nat)]
        } else {
            digits((n / 10) as nat).push(digit_char((n % 10) as nat))
        });
    }
    assert(final(out)@ =~= old(out)@ + digits(n as nat));
}

/// Appends the decimal text of `value`.
pub fn push_decimal(out: &mut String, value: i128)
    ensures
        final(out)@ == old(out)@ + decimal(value as int),
{
    if value < 0 {
        proof { reveal_strlit("-"); }
        out.append("-");
        let magnitude: u128 = ((-(value + 1)) as u128) + 1;
        push_digits(out, magnitude);
        assert(final(out)@ =~= old(out)@ + decimal(value as int));
    } else {
        push_digits(out, value as u128);
    }
}

/// The decimal text of `value`.
pub fn decimal_string(value: i128) -> (r: String)
    ensures
        r@ == decimal(value as int),
{
    let mut out = String::new();
    push_decimal(&mut out, value);
    assert(out@ =~= decimal(value as int));
    out
}

/// Appends `s`, escaped, between double quotes.
pub fn push_quoted(out: &mut String, s: &str)
    ensures
        final(out)@ == old(out)@ + quoted(s@),
{
    proof { reveal_strlit("\""); }
    out.append("\"");
    let ghost start = out@;
    let n = s.unicode_len();
    let mut i: usize = 0;
    while i < n
        invariant
            n == s@.len(),
            i <= n,
            out@ == start + escaped(s@.take(i as int)),
        decreases n - i,
    {
        let c = s.get_char(i);
        if c == '"' {
            proof { reveal_strlit("\\\""); }
            out.append("\\\"");
        } else if c == '\\' {
            proof { reveal_strlit("\\\\"); }
            out.append("\\\\");
        } else if c == '\n' {
            proof { reveal_strlit("\\n"); }
            out.append("\\n");
        } else if c == '\r' {
            proof { reveal_strlit("\\r"); }
            out.append("\\r");
        } else if c == '\t' {
            proof { reveal_strlit("\\t"); }
            out.append("\\t");
        } else if c == '\0' {
            proof { reveal_strlit("\\0"); }
            out.append("\\0");
        } else if (c as u32) < 0x20 || (c as u32) == 0x7f {
            proof {
                reveal_strlit("\\u{");
                reveal_strlit("}");
            }
            let ghost before = out@;
            out.append("\\u{");
            push_hex(out, c as u32);
            out.append("}");
            assert(out@ =~= before + escaped_char(c));
        } else if (c as u32) >= 0x80 {
            let piece = escape_debug_text(c);
            out.append(piece.as_str());
        } else {
            let piece = s.substring_char(i, i + 1);
            assert(piece@ =~= seq![c]);
            out.append(piece);
        }
        assert(s@.take(i + 1).drop_last() =~= s@.take(i as int));
        i = i + 1;
    }
    assert(s@.take(n as int) =~= s@);
    out.append("\"");
    assert(final(out)@ =~= old(out)@ + quoted(s@));
}


/// `s` without its leading `prefix`, if it starts with it.
pub fn strip_prefix<'a>(s: &'a str, prefix: &str) -> (r: Option<&'a str>)
    ensures
        match r {
            Some(rest) => prefix@.len() <= s@.len() && s@.take(prefix@.len() as int) == prefix@
                && rest@ == s@.skip(prefix@.len() as int),
            None => !(prefix@.len() <= s@.len() && s@.take(prefix@.len() as int) == prefix@),
        },
{
    let n = s.unicode_len();
    let m = prefix.unicode_len();
    if m > n {
        return None;
    }
    let mut i: usize = 0;
    while i < m
        invariant
            n == s@.len(),
            m == prefix@.len(),
            m <= n,
            i <= m,
            forall|j: int| 0 <= j < i ==> s@[j] == prefix@[j],
        decreases m - i,
    {
        if s.get_char(i) != prefix.get_char(i) {
            assert(s@.take(m as int)[i as int] != prefix@[i as int]);
            return None;
        }
        i = i + 1;
    }
    assert(s@.take(m as int) =~= prefix@);
    let rest = s.substring_char(m, n);
    assert(rest@ =~= s@.skip(m as int));
    Some(rest)
}

} // verus!
