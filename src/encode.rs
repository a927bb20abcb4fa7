use vstd::prelude::*;
use vstd::string::*;

verus! {

/// The bytes that must be escaped when a URI is carried as one query value:
/// the C0 controls and DEL, then space `"` `#` `<` `>` `?` `` ` `` `{` `}`
/// `/` `:` `;` `=` `@` `[` `\` `]` `^` `|` `$` `%` `&` `+` `,`.
pub open spec fn in_component_set(b: u8) -> bool {
    ||| b < 0x20
    ||| b == 0x7f
    ||| b == 0x20 || b == 0x22 || b == 0x23 || b == 0x3c || b == 0x3e
    ||| b == 0x3f || b == 0x60 || b == 0x7b || b == 0x7d
    ||| b == 0x2f || b == 0x3a || b == 0x3b || b == 0x3d || b == 0x40 || b == 0x5b
    ||| b == 0x5c || b == 0x5d || b == 0x5e || b == 0x7c
    ||| b == 0x24 || b == 0x25 || b == 0x26 || b == 0x2b || b == 0x2c
}

/// A byte is escaped when it lies in the set or is not ASCII.
pub open spec fn needs_escape(b: u8) -> bool {
    b >= 0x80 || in_component_set(b)
}

/// Uppercase hexadecimal digit of `n < 16`.
pub open spec fn hex_digit(n: u8) -> char {
    if n < 10 {
        (0x30 + n) as u8 as char
    } else {
        (0x41 + n - 10) as u8 as char
    }
}

/// `%XX`, the escape of one byte, with uppercase hex digits.
pub open spec fn escape_of(b: u8) -> Seq<char> {
    seq!['%', hex_digit(b / 16), hex_digit(b % 16)]
}

/// The text that stands for one byte in the encoded form.
pub open spec fn byte_text(b: u8) -> Seq<char> {
    if needs_escape(b) {
        escape_of(b)
    } else {
        seq![b as char]
    }
}

/// Percent-encoding of a byte string: each byte in turn, escaped where
/// `needs_escape` says so and kept as its ASCII character otherwise.
pub open spec fn pct_encoded(bytes: Seq<u8>) -> Seq<char>
    decreases bytes.len(),
{
    if bytes.len() == 0 {
        Seq::empty()
    } else {
        pct_encoded(bytes.drop_last()) + byte_text(bytes.last())
    }
}

/// Membership in the escaped set, as a lookup over the byte values.
pub fn is_component_byte(b: u8) -> (r: bool)
    ensures
        r == in_component_set(b),
{
    match b {
        0x00..=0x1f | 0x7f => true,
        0x20 | 0x22 | 0x23 | 0x3c | 0x3e => true,
        0x3f | 0x60 | 0x7b | 0x7d => true,
        0x2f | 0x3a | 0x3b | 0x3d | 0x40 | 0x5b | 0x5c | 0x5d | 0x5e | 0x7c => true,
        0x24 | 0x25 | 0x26 | 0x2b | 0x2c => true,
        _ => false,
    }
}

/// Relies on percent_encoding::percent_encode_byte: the three characters
/// `%XX` for a byte, from a table of uppercase hex.
#[verifier::external_body]
fn escape_byte(b: u8) -> (r: &'static str)
    ensures
        r@ == escape_of(b),
{
    percent_encoding::percent_encode_byte(b)
}

/// Relies on std's String::push: appends one character.
#[verifier::external_body]
fn push_char(s: &mut String, c: char)
    ensures
        final(s)@ == old(s)@.push(c),
{
    s.push(c)
}

/// Percent-encodes the UTF-8 bytes of `s`: every byte of the escaped set,
/// and every non-ASCII byte, becomes `%XX`; any other byte stays as it is.
pub fn percent_encode_component(s: &str) -> (r: String)
    ensures
        r@ == pct_encoded(s.spec_bytes()),
{
    let bytes = s.as_bytes();
    let mut out = String::new();
    let n = bytes.len();
    for i in 0..n
        invariant
            n == bytes@.len(),
            bytes@ == s.spec_bytes(),
            out@ == pct_encoded(bytes@.take(i as int)),
    {
        let b = bytes[i];
        assert(bytes@.take(i + 1).drop_last() == bytes@.take(i as int));
        if b >= 0x80 || is_component_byte(b) {
            let e = escape_byte(b);
            out.append(e);
        } else {
            push_char(&mut out, b as char);
        }
    }
    assert(bytes@.take(n as int) == bytes@);
    out
}

} // verus!
