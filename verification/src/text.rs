//! Text rendering for the observation path: decimal and hexadecimal byte
//! rendering used by the packet printer and the raw-bytes logger.

use vstd::prelude::*;

verus! {

/// The character for one decimal or hexadecimal digit value below 16.
pub open spec fn digit_char(d: u8) -> char
    recommends
        d < 16,
{
    if d < 10 {
        ((48 + d) as u8) as char
    } else {
        ((87 + d) as u8) as char
    }
}

/// The decimal rendering of a byte, one to three digits, no leading zeros.
pub open spec fn dec_chars(x: u8) -> Seq<char> {
    if x < 10 {
        seq![digit_char(x)]
    } else if x < 100 {
        seq![digit_char(x / 10), digit_char(x % 10)]
    } else {
        seq![digit_char(x / 100), digit_char((x / 10) % 10), digit_char(x % 10)]
    }
}

/// The two hexadecimal digits of a byte, lower case.
pub open spec fn hex_chars(x: u8) -> Seq<char> {
    seq![digit_char(x / 16), digit_char(x % 16)]
}

/// Hexadecimal rendering of a byte sequence: every byte as two lower-case
/// digits, separated by single spaces when `spaced` is set, unseparated
/// otherwise.
pub open spec fn hex_render(s: Seq<u8>, spaced: bool) -> Seq<char>
    decreases s.len(),
{
    if s.len() == 0 {
        Seq::empty()
    } else if s.len() == 1 {
        hex_chars(s[0])
    } else if spaced {
        hex_chars(s[0]) + seq![' '] + hex_render(s.skip(1), spaced)
    } else {
        hex_chars(s[0]) + hex_render(s.skip(1), spaced)
    }
}

/// Relies on String::push: appends exactly the one given character.
#[verifier::external_body]
pub fn push_char(s: &mut String, c: char)
    ensures
        final (s)@ == old(s)@.push(c),
{
    s.push(c);
}

/// Appends the character for one digit value below 16.
pub fn push_digit(s: &mut String, d: u8)
    requires
        d < 16,
    ensures
        final (s)@ == old(s)@.push(digit_char(d)),
{
    if d < 10 {
        push_char(s, (48 + d) as char);
    } else {
        push_char(s, (87 + d) as char);
    }
}

/// Appends the decimal rendering of a byte.
pub fn push_decimal(s: &mut String, x: u8)
    ensures
        final (s)@ == old(s)@ + dec_chars(x),
{
    if x < 10 {
        push_digit(s, x);
        assert(final (s)@ =~= old(s)@ + dec_chars(x));
    } else if x < 100 {
        push_digit(s, x / 10);
        push_digit(s, x % 10);
        assert(final (s)@ =~= old(s)@ + dec_chars(x));
    } else {
        push_digit(s, x / 100);
        push_digit(s, (x / 10) % 10);
        push_digit(s, x % 10);
        assert(final (s)@ =~= old(s)@ + dec_chars(x));
    }
}

/// Appends the two hexadecimal digits of a byte.
pub fn push_hex_pair(s: &mut String, x: u8)
    ensures
        final (s)@ == old(s)@ + hex_chars(x),
{
    push_digit(s, x / 16);
    push_digit(s, x % 16);
    assert(final (s)@ =~= old(s)@ + hex_chars(x));
}

/// Renders a byte sequence in hexadecimal, spaced or compact.
pub fn render_hex(bytes: &[u8], spaced: bool) -> (r: String)
    ensures
        r@ == hex_render(bytes@, spaced),
{
    let n = bytes.len();
    let mut out = String::new();
    let mut i: usize = 0;
    while i < n
        invariant
            i <= n,
            n == bytes@.len(),
            out@ == hex_render(bytes@.take(i as int), spaced),
        decreases n - i,
    {
        let x = *vstd::slice::slice_index_get(bytes, i);
        if spaced && i > 0 {
            push_char(&mut out, ' ');
        }
        push_hex_pair(&mut out, x);
        proof {
            lemma_hex_render_take_step(bytes@, spaced, i as int);
            if spaced && i > 0 {
                assert(out@ =~= hex_render(bytes@.take(i as int), spaced) + seq![' ']
                    + hex_chars(bytes@[i as int]));
            } else {
                assert(out@ =~= hex_render(bytes@.take(i as int), spaced) + hex_chars(
                    bytes@[i as int],
                ));
            }
        }
        i = i + 1;
    }
    proof {
        assert(bytes@.take(n as int) =~= bytes@);
    }
    out
}

/// Unrolls `hex_render` at the back of a prefix: rendering one more byte
/// appends one pair, preceded by a space when spaced and not first.
proof fn lemma_hex_render_take_step(s: Seq<u8>, spaced: bool, i: int)
    requires
        0 <= i < s.len(),
    ensures
        i == 0 ==> hex_render(s.take(1), spaced) == hex_chars(s[0]),
        i > 0 && spaced ==> hex_render(s.take(i + 1), spaced) == hex_render(s.take(i), spaced)
            + seq![' '] + hex_chars(s[i]),
        i > 0 && !spaced ==> hex_render(s.take(i + 1), spaced) == hex_render(s.take(i), spaced)
            + hex_chars(s[i]),
    decreases i,
{
    if i == 0 {
        assert(s.take(1) =~= seq![s[0]]);
        assert(hex_render(s.take(1), spaced) =~= hex_chars(s[0]));
    } else {
        lemma_hex_render_take_step(s.skip(1), spaced, i - 1);
        assert(s.take(i + 1).skip(1) =~= s.skip(1).take(i));
        assert(s.take(i).skip(1) =~= s.skip(1).take(i - 1));
        assert(s.take(i + 1)[0] == s[0]);
        assert(s.take(i)[0] == s[0]);
        assert(s.skip(1)[i - 1] == s[i]);
        if spaced {
            assert(hex_render(s.take(i + 1), spaced) =~= hex_render(s.take(i), spaced) + seq![' ']
                + hex_chars(s[i]));
        } else {
            assert(hex_render(s.take(i + 1), spaced) =~= hex_render(s.take(i), spaced) + hex_chars(
                s[i],
            ));
        }
    }
}

} // verus!
