//! Characters and strings: which characters separate words, whether two
//! string slices are equal, and taking a character off the front of one.

use vstd::prelude::*;
use vstd::std_specs::iter::IteratorSpec;
use vstd::utf8::{encode_utf8, encode_utf8_decode_utf8};

verus! {

/// Whether two string slices hold the same characters.
pub fn str_eq(a: &str, b: &str) -> (same: bool)
    ensures
        same == (a@ == b@),
{
    let x = a.as_bytes();
    let y = b.as_bytes();
    proof {
        encode_utf8_decode_utf8(a@);
        encode_utf8_decode_utf8(b@);
    }
    if x.len() != y.len() {
        return false;
    }
    let mut i: usize = 0;
    while i < x.len()
        invariant
            i <= x.len(),
            x.len() == y.len(),
            x@ == encode_utf8(a@),
            y@ == encode_utf8(b@),
            forall|k: int| 0 <= k < i ==> x[k] == y[k],
        decreases x.len() - i,
    {
        if x[i] != y[i] {
            assert(x@[i as int] != y@[i as int]);
            return false;
        }
        i += 1;
    }
    assert(x@ =~= y@);
    true
}

/// Whether a character separates words: the characters that Unicode gives
/// the property White_Space.
pub open spec fn is_space(c: char) -> bool {
    let u = c as u32;
    ||| 0x09 <= u <= 0x0D
    ||| u == 0x20
    ||| u == 0x85
    ||| u == 0xA0
    ||| u == 0x1680
    ||| 0x2000 <= u <= 0x200A
    ||| u == 0x2028
    ||| u == 0x2029
    ||| u == 0x202F
    ||| u == 0x205F
    ||| u == 0x3000
}

/// Decides `is_space`.
pub fn is_whitespace(c: char) -> (space: bool)
    ensures
        space == is_space(c),
{
    let u: u32 = c as u32;
    (0x09 <= u && u <= 0x0D) || u == 0x20 || u == 0x85 || u == 0xA0 || u == 0x1680 || (0x2000 <= u
        && u <= 0x200A) || u == 0x2028 || u == 0x2029 || u == 0x202F || u == 0x205F || u == 0x3000
}

/// Appends one character to a string.
///
/// Trusted: the body is a call of std's `String::push`, which is documented
/// to append the given character to the end of the string. The contract says
/// that and no more.
#[verifier::external_body]
pub(crate) fn push_char(s: &mut String, c: char)
    ensures
        final(s)@ == old(s)@.push(c),
{
    s.push(c)
}

/// Takes `first` off the front of a text that starts with it.
pub fn strip_first(text: &str, first: char) -> (rest: Option<String>)
    ensures
        match rest {
            Some(rest) => text@.len() > 0 && text@[0] == first && rest@ == text@.drop_first(),
            None => text@.len() == 0 || text@[0] != first,
        },
{
    broadcast use vstd::string::axiom_spec_iter, vstd::string::next_postcondition;

    let mut chars = text.chars();
    match chars.next() {
        None => None,
        Some(c) => {
            if c != first {
                return None;
            }
            let mut rest = String::new();
            assert(rest@ + chars.remaining() =~= text@.drop_first());
            loop
                invariant
                    chars.obeys_prophetic_iter_laws(),
                    chars.decrease() is Some,
                    rest@ + chars.remaining() == text@.drop_first(),
                ensures
                    chars.remaining().len() == 0,
                decreases chars.decrease()->0,
            {
                let ghost before = chars.remaining();
                let ghost sofar = rest@;
                match chars.next() {
                    None => {
                        break ;
                    },
                    Some(c) => {
                        push_char(&mut rest, c);
                        assert(rest@ + chars.remaining() =~= sofar + before);
                    },
                }
            }
            assert(rest@ + chars.remaining() =~= rest@);
            Some(rest)
        },
    }
}

} // verus!
