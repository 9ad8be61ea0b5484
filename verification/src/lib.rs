//! A ROT13 cipher: each ASCII letter is shifted 13 positions within its
//! case-preserving 26-letter alphabet; every other character is unchanged.
//!
//! The mapping is stated by [`rot13_char_spec`] and [`rot13_spec`], computed
//! by [`rot13_char`] and [`rot13`], and shown to be an involution that fixes
//! non-letters and preserves length and order.
use vstd::prelude::*;

verus! {

/// True of the ASCII lowercase letters `'a'..='z'`.
pub open spec fn is_ascii_lowercase(c: char) -> bool {
    'a' <= c <= 'z'
}

/// True of the ASCII uppercase letters `'A'..='Z'`.
pub open spec fn is_ascii_uppercase(c: char) -> bool {
    'A' <= c <= 'Z'
}

/// True of the ASCII letters, the only characters the cipher moves.
pub open spec fn is_ascii_letter(c: char) -> bool {
    is_ascii_lowercase(c) || is_ascii_uppercase(c)
}

/// The ROT13 image of one character: a letter is shifted 13 positions
/// forward within its own case's alphabet, wrapping around; anything
/// else is left as it is.
pub open spec fn rot13_char_spec(c: char) -> char {
    if is_ascii_lowercase(c) {
        ((((c as int) - ('a' as int) + 13) % 26 + ('a' as int)) as char)
    } else if is_ascii_uppercase(c) {
        ((((c as int) - ('A' as int) + 13) % 26 + ('A' as int)) as char)
    } else {
        c
    }
}

/// The ROT13 image of a character sequence: the image of each character,
/// in the same order and of the same length.
pub open spec fn rot13_spec(s: Seq<char>) -> Seq<char> {
    Seq::new(s.len(), |i: int| rot13_char_spec(s[i]))
}

/// Applies ROT13 to one character.
pub fn rot13_char(c: char) -> (r: char)
    ensures
        r == rot13_char_spec(c),
{
    let n = c as u32;
    if 97 <= n && n <= 122 {
        let m = (n - 97 + 13) % 26 + 97;
        (m as u8) as char
    } else if 65 <= n && n <= 90 {
        let m = (n - 65 + 13) % 26 + 65;
        (m as u8) as char
    } else {
        c
    }
}

/// A letter's ROT13 image stays within its own case's alphabet: the
/// cipher never turns a letter into a non-letter or changes its case.
pub proof fn lemma_rot13_char_keeps_case(c: char)
    ensures
        is_ascii_lowercase(c) ==> is_ascii_lowercase(rot13_char_spec(c)),
        is_ascii_uppercase(c) ==> is_ascii_uppercase(rot13_char_spec(c)),
{
}

/// The cipher is an involution on characters: applying it twice to any
/// character yields that character again, since two shifts of 13 add up
/// to a full turn of the 26-letter alphabet.
pub proof fn lemma_rot13_char_involution(c: char)
    ensures
        rot13_char_spec(rot13_char_spec(c)) == c,
{
}

/// A character that is not an ASCII letter is a fixed point of the cipher.
pub proof fn lemma_rot13_char_fixed_point(c: char)
    requires
        !is_ascii_letter(c),
    ensures
        rot13_char_spec(c) == c,
{
}

/// The cipher preserves length and character order: the image of a
/// sequence has the same length, and each position holds exactly the
/// image of the character that stood there.
pub proof fn lemma_rot13_preserves_structure(s: Seq<char>)
    ensures
        rot13_spec(s).len() == s.len(),
        forall|i: int| 0 <= i < s.len() ==> rot13_spec(s)[i] == rot13_char_spec(s[i]),
{
}

/// The cipher is an involution on sequences: applying it twice to any
/// sequence of characters yields the original sequence.
pub proof fn lemma_rot13_involution(s: Seq<char>)
    ensures
        rot13_spec(rot13_spec(s)) == s,
{
    assert forall|i: int| 0 <= i < s.len() implies rot13_spec(rot13_spec(s))[i] == s[i] by {
        lemma_rot13_char_involution(s[i]);
    }
    assert(rot13_spec(rot13_spec(s)) =~= s);
}

/// Relies on `String::push`: appends the given character to the end of
/// the string. vstd gives this std method no specification.
#[verifier::external_body]
fn push_char(s: &mut String, c: char)
    ensures
        final(s)@ == old(s)@.push(c),
{
    s.push(c);
}

/// Applies ROT13 to a string, character by character.
pub fn rot13(text: &str) -> (r: String)
    ensures
        r@ == rot13_spec(text@),
{
    let len = text.unicode_len();
    let mut out = String::new();
    let mut i: usize = 0;
    while i < len
        invariant
            len == text@.len(),
            i <= len,
            out@.len() == i,
            forall|j: int| 0 <= j < i ==> out@[j] == rot13_char_spec(text@[j]),
        decreases len - i,
    {
        let c = text.get_char(i);
        push_char(&mut out, rot13_char(c));
        i = i + 1;
    }
    proof {
        assert(out@ =~= rot13_spec(text@));
    }
    out
}

} // verus!
