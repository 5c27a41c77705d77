//! Trimming the white space off the ends of a line.

use vstd::prelude::*;
use vstd::string::*;

verus! {

/// The character has the Unicode property `White_Space`: it is a tab, a
/// line feed, a vertical tab, a form feed, a carriage return, a space, the
/// next-line control, a no-break space, the ogham space mark, one of the
/// spaces from the en quad to the hair space, a line or paragraph
/// separator, a narrow no-break space, a medium mathematical space or an
/// ideographic space.
pub open spec fn white_space(c: char) -> bool {
    let code = c as u32;
    ||| 0x09 <= code <= 0x0D
    ||| code == 0x20
    ||| code == 0x85
    ||| code == 0xA0
    ||| code == 0x1680
    ||| 0x2000 <= code <= 0x200A
    ||| code == 0x2028
    ||| code == 0x2029
    ||| code == 0x202F
    ||| code == 0x205F
    ||| code == 0x3000
}

/// Calls `char::is_whitespace`, which tells whether the character has the
/// Unicode property `White_Space`.
#[verifier::external_body]
fn is_white_space(c: char) -> (r: bool)
    ensures
        r == white_space(c),
{
    c.is_whitespace()
}

/// The text without the white space that it begins with.
pub open spec fn trimmed_start(text: Seq<char>) -> Seq<char>
    decreases text.len(),
{
    if text.len() > 0 && white_space(text.first()) {
        trimmed_start(text.drop_first())
    } else {
        text
    }
}

/// The text without the white space that it ends with.
pub open spec fn trimmed_end(text: Seq<char>) -> Seq<char>
    decreases text.len(),
{
    if text.len() > 0 && white_space(text.last()) {
        trimmed_end(text.drop_last())
    } else {
        text
    }
}

/// The text without the white space at either end.
pub open spec fn trimmed(text: Seq<char>) -> Seq<char> {
    trimmed_end(trimmed_start(text))
}

/// The text without the white space at either end, as `str::trim` gives it.
pub fn trim(text: &str) -> (r: &str)
    ensures
        r@ == trimmed(text@),
{
    let n = text.unicode_len();
    let mut from: usize = 0;
    assert(text@.subrange(0, n as int) =~= text@);
    while from < n && is_white_space(text.get_char(from))
        invariant
            n == text@.len(),
            from <= n,
            trimmed_start(text@) == trimmed_start(text@.subrange(from as int, n as int)),
        decreases n - from,
    {
        proof {
            let rest = text@.subrange(from as int, n as int);
            assert(rest.first() == text@[from as int]);
            assert(rest.drop_first() =~= text@.subrange(from + 1, n as int));
        }
        from += 1;
    }
    let ghost body = text@.subrange(from as int, n as int);
    assert(trimmed_start(text@) == body) by {
        if from < n {
            assert(body.first() == text@[from as int]);
        }
    }
    let mut to: usize = n;
    while to > from && is_white_space(text.get_char(to - 1))
        invariant
            n == text@.len(),
            from <= to <= n,
            body == text@.subrange(from as int, n as int),
            trimmed_end(body) == trimmed_end(text@.subrange(from as int, to as int)),
        decreases to - from,
    {
        proof {
            let rest = text@.subrange(from as int, to as int);
            assert(rest.last() == text@[to - 1]);
            assert(rest.drop_last() =~= text@.subrange(from as int, to - 1));
        }
        to -= 1;
    }
    assert(trimmed_end(body) == text@.subrange(from as int, to as int)) by {
        let rest = text@.subrange(from as int, to as int);
        if to > from {
            assert(rest.last() == text@[to - 1]);
        }
    }
    text.substring_char(from, to)
}

} // verus!
