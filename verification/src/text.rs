//! Text: the few string operations that the library needs, stated over sequences of characters.
use vstd::prelude::*;
use vstd::string::*;

verus! {

/// How many characters of text the index takes at a time. Its tokenizer counts letters and words
/// within 32 bits: ten times the number of vowels, and up to eight words for a character.
pub const MAX_TEXT: usize = 0x1999_9999;

/// `str::eq` compares two string slices character for character.
pub assume_specification[ <str as PartialEq<str>>::eq ](a: &str, b: &str) -> (r: bool)
    ensures
        r == (a@ == b@),
;

/// `String::push` appends one character.
pub assume_specification[ String::push ](s: &mut String, c: char)
    ensures
        final(s)@ == old(s)@.push(c),
;

/// The ASCII lower case of one character: `A` to `Z` become `a` to `z`, all else stays.
pub open spec fn lower_char(c: char) -> char {
    if 'A' <= c <= 'Z' {
        (c as u32 + 32) as char
    } else {
        c
    }
}

/// The ASCII lower case of a text.
pub open spec fn lower(s: Seq<char>) -> Seq<char> {
    s.map_values(|c: char| lower_char(c))
}

/// `str::to_ascii_lowercase` maps the ASCII letters `A` to `Z` to `a` to `z` and leaves every
/// other character as it is.
pub assume_specification[ str::to_ascii_lowercase ](s: &str) -> (r: String)
    ensures
        r@ == lower(s@),
;

/// The characters with the Unicode property `White_Space`.
pub open spec fn white_space(c: char) -> bool {
    let n = c as u32;
    ||| 0x09 <= n <= 0x0d
    ||| n == 0x20
    ||| n == 0x85
    ||| n == 0xa0
    ||| n == 0x1680
    ||| 0x2000 <= n <= 0x200a
    ||| n == 0x2028
    ||| n == 0x2029
    ||| n == 0x202f
    ||| n == 0x205f
    ||| n == 0x3000
}

/// `char::is_whitespace` tells whether a character has the Unicode property `White_Space`.
pub assume_specification[ char::is_whitespace ](c: char) -> (r: bool)
    ensures
        r == white_space(c),
;

/// A text with nothing in it but white space.
pub open spec fn blank(s: Seq<char>) -> bool {
    forall|i: int| 0 <= i < s.len() ==> white_space(#[trigger] s[i])
}

/// Whether a text holds nothing but white space.
pub fn is_blank(s: &str) -> (r: bool)
    ensures
        r == blank(s@),
{
    for c in iter: s.chars()
        invariant
            iter.seq() == s@,
            forall|i: int| 0 <= i < iter.index() ==> white_space(#[trigger] s@[i]),
    {
        if !c.is_whitespace() {
            assert(!white_space(s@[iter.index() as int]));
            return false;
        }
    }
    true
}

/// The decimal digits of a natural number.
pub open spec fn digits(n: nat) -> Seq<char>
    decreases n,
{
    if n < 10 {
        seq![('0' as u32 + n) as char]
    } else {
        digits(n / 10).push(('0' as u32 + n % 10) as char)
    }
}

/// An integer in decimal notation.
pub open spec fn decimal(n: int) -> Seq<char> {
    if n < 0 {
        seq!['-'] + digits((-n) as nat)
    } else {
        digits(n as nat)
    }
}

/// Two texts, one behind the other.
pub fn join2(a: &str, b: &str) -> (r: String)
    ensures
        r@ == a@ + b@,
{
    let mut r = String::from_str(a);
    r.append(b);
    r
}

} // verus!
