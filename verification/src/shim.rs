//! The few points where the library leans on code Verus does not read:
//! std functions vstd gives no specification to, and the regex crate.

use vstd::prelude::*;

verus! {

/// Relies on String::push: appends exactly the given character.
#[verifier::external_body]
pub fn push_char(s: &mut String, c: char)
    ensures
        final(s)@ == old(s)@.push(c),
{
    s.push(c)
}

/// Relies on Rc::clone: hands out the same value again.
#[verifier::external_body]
pub fn rc_dup<T>(rc: &std::rc::Rc<T>) -> (r: std::rc::Rc<T>)
    ensures
        r == *rc,
{
    std::rc::Rc::clone(rc)
}

/// Whether the regex crate accepts a pattern; a function of the pattern
/// text alone.
pub uninterp spec fn regex_compiles(pattern: Seq<char>) -> bool;

/// Whether a pattern matches somewhere in a text (an un-anchored substring
/// test); a function of the pattern and text alone.
pub uninterp spec fn regex_matches(pattern: Seq<char>, text: Seq<char>) -> bool;

/// Relies on regex::Regex::new: whether it returns Ok depends on the
/// pattern text alone.
#[verifier::external_body]
pub fn regex_check(pattern: &str) -> (r: bool)
    ensures
        r == regex_compiles(pattern@),
{
    regex::Regex::new(pattern).is_ok()
}

/// Relies on regex::Regex::new and regex::Regex::is_match: compilation
/// succeeds on exactly the patterns `regex_compiles` admits, and a match is
/// a deterministic un-anchored test of the pattern against the text.
#[verifier::external_body]
pub fn regex_is_match(pattern: &str, text: &str) -> (r: Option<bool>)
    ensures
        r is Some <==> regex_compiles(pattern@),
        r matches Some(b) ==> b == regex_matches(pattern@, text@),
{
    regex::Regex::new(pattern).ok().map(|re| re.is_match(text))
}


/// Relies on char::from_u32: it returns Some exactly on Unicode scalar
/// values, and the character it returns has that code.
#[verifier::external_body]
pub fn char_from_u32(u: u32) -> (r: Option<char>)
    ensures
        r matches Some(c) ==> c == u as char,
        (r is Some) <==> (u < 0xD800 || (0xE000 <= u && u < 0x110000)),
{
    char::from_u32(u)
}


/// Relies on Rc's Deref: hands out a reference to the shared value.
#[verifier::external_body]
pub fn rc_get<T>(rc: &std::rc::Rc<T>) -> (r: &T)
    ensures
        *r == **rc,
{
    &**rc
}

} // verus!


