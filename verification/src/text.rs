//! Building text: decimal and hexadecimal numerals, quoted strings, joined lists.

use vstd::prelude::*;
use vstd::string::*;

verus! {

/// The text that `{:?}` prints for a string whose characters are `s`: the
/// characters between double quotes, with the escapes of `char::escape_debug`.
pub uninterp spec fn debug_quoted(s: Seq<char>) -> Seq<char>;

/// `String::push` appends one character.
pub assume_specification[ String::push ](s: &mut String, ch: char)
    ensures
        final(s)@ == old(s)@.push(ch),
;

/// Formats a string with `{:?}`; the result is `debug_quoted` of its
/// characters.
#[verifier::external_body]
pub(crate) fn quote(s: &String) -> (r: String)
    ensures
        r@ == debug_quoted(s@),
{
    format!("{:?}", s)
}

/// The character that stands for a digit below sixteen, in upper case.
pub open spec fn digit_char(d: nat) -> char {
    if d < 10 {
        ((48 + d) as u8) as char
    } else {
        ((55 + d) as u8) as char
    }
}

/// The decimal numeral of `n`, most significant digit first, without leading
/// zeros; zero is the single digit `0`.
pub open spec fn decimal_text(n: nat) -> Seq<char>
    decreases n,
{
    if n < 10 {
        seq![digit_char(n)]
    } else {
        decimal_text(n / 10).push(digit_char(n % 10))
    }
}

/// The upper-case hexadecimal numeral of `n`, most significant digit first,
/// without leading zeros; zero is the single digit `0`.
pub open spec fn hex_text(n: nat) -> Seq<char>
    decreases n,
{
    if n < 16 {
        seq![digit_char(n)]
    } else {
        hex_text(n / 16).push(digit_char(n % 16))
    }
}

/// The upper-case hexadecimal numeral of `n`, with a zero in front where it
/// would otherwise be a single digit.
pub open spec fn hex_text_padded(n: nat) -> Seq<char> {
    if n < 16 {
        seq!['0'] + hex_text(n)
    } else {
        hex_text(n)
    }
}

/// The items of `parts`, with `sep` between each two neighbours.
pub open spec fn joined(parts: Seq<Seq<char>>, sep: Seq<char>) -> Seq<char>
    decreases parts.len(),
{
    if parts.len() == 0 {
        Seq::empty()
    } else if parts.len() == 1 {
        parts[0]
    } else {
        joined(parts.drop_last(), sep) + sep + parts.last()
    }
}

fn digit_to_char(d: u16) -> (c: char)
    requires
        d < 16,
    ensures
        c == digit_char(d as nat),
{
    let code: u8 = if d < 10 {
        48 + (d as u8)
    } else {
        55 + (d as u8)
    };
    code as char
}

/// Appends the decimal numeral of `n`.
pub fn push_decimal(out: &mut String, n: u16)
    ensures
        final(out)@ == old(out)@ + decimal_text(n as nat),
    decreases n,
{
    if n < 10 {
        out.push(digit_to_char(n));
        assert(old(out)@.push(digit_char(n as nat)) =~= old(out)@ + seq![digit_char(n as nat)]);
    } else {
        push_decimal(out, n / 10);
        out.push(digit_to_char(n % 10));
        assert((old(out)@ + decimal_text((n / 10) as nat)).push(digit_char((n % 10) as nat))
            =~= old(out)@ + decimal_text(n as nat));
    }
}

/// Appends the upper-case hexadecimal numeral of `n`.
pub fn push_hex(out: &mut String, n: u16)
    ensures
        final(out)@ == old(out)@ + hex_text(n as nat),
    decreases n,
{
    if n < 16 {
        out.push(digit_to_char(n));
        assert(old(out)@.push(digit_char(n as nat)) =~= old(out)@ + seq![digit_char(n as nat)]);
    } else {
        push_hex(out, n / 16);
        out.push(digit_to_char(n % 16));
        assert((old(out)@ + hex_text((n / 16) as nat)).push(digit_char((n % 16) as nat))
            =~= old(out)@ + hex_text(n as nat));
    }
}

/// Appends the upper-case hexadecimal numeral of `n`, at least two digits wide.
pub fn push_hex_padded(out: &mut String, n: u16)
    ensures
        final(out)@ == old(out)@ + hex_text_padded(n as nat),
{
    if n < 16 {
        out.push('0');
        push_hex(out, n);
        assert(old(out)@.push('0') + hex_text(n as nat) =~= old(out)@ + (seq!['0'] + hex_text(
            n as nat,
        )));
    } else {
        push_hex(out, n);
    }
}

/// Joins `parts` with `sep` between neighbours.
pub fn join(parts: &Vec<String>, sep: &str) -> (r: String)
    ensures
        r@ == joined(parts@.map_values(|p: String| p@), sep@),
{
    let ghost views = parts@.map_values(|p: String| p@);
    let mut out = String::new();
    let mut i: usize = 0;
    while i < parts.len()
        invariant
            i <= parts.len(),
            views == parts@.map_values(|p: String| p@),
            out@ == joined(views.take(i as int), sep@),
        decreases parts.len() - i,
    {
        let ghost before = views.take(i as int);
        let ghost after = views.take(i + 1);
        proof {
            assert(after.drop_last() =~= before);
            assert(after.last() == parts@[i as int]@);
        }
        if i > 0 {
            out.append(sep);
        } else {
            assert(out@ + parts@[i as int]@ =~= parts@[i as int]@);
        }
        out.append(parts[i].as_str());
        i += 1;
    }
    assert(views.take(parts.len() as int) =~= views);
    out
}

} // verus!
