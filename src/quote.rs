//! Escaping of text so that it can stand as a literal inside a pattern.
use vstd::prelude::*;

verus! {

/// The characters that carry a meaning of their own in a pattern.
pub open spec fn special_char(c: char) -> bool {
    c == '\\' || c == '+' || c == '*' || c == '?' || c == '^' || c == '$' || c == '('
        || c == ')' || c == '[' || c == ']' || c == '{' || c == '}' || c == '.' || c == '|'
}

/// The text `s` with a backslash put before each special character.
pub open spec fn quoted(s: Seq<char>) -> Seq<char>
    decreases s.len(),
{
    if s.len() == 0 {
        Seq::empty()
    } else {
        let c = s.last();
        let tail = if special_char(c) { seq!['\\', c] } else { seq![c] };
        quoted(s.drop_last()) + tail
    }
}

pub fn is_regex_special(b: char) -> (r: bool)
    ensures
        r == special_char(b),
{
    match b {
        '\\' | '+' | '*' | '?' | '^' | '$' | '(' | ')' | '[' | ']' | '{' | '}' | '.' | '|' => true,
        _ => false,
    }
}

/// Relies on `String::push`: the character is appended at the end.
#[verifier::external_body]
fn push_char(s: &mut String, c: char)
    ensures
        final(s)@ == old(s)@.push(c),
{
    s.push(c)
}

/// Escapes `s` so that the result, read as a pattern, matches exactly `s`.
pub fn quote_regex(s: &str) -> (r: String)
    ensures
        r@ == quoted(s@),
{
    let mut out = String::new();
    for c in it: s.chars()
        invariant
            it.seq() == s@,
            out@ == quoted(s@.take(it.index() as int)),
    {
        proof {
            let k = it.index() as int;
            assert(s@.take(k + 1).drop_last() == s@.take(k));
            assert(s@.take(k + 1).last() == c);
        }
        if is_regex_special(c) {
            push_char(&mut out, '\\');
        }
        push_char(&mut out, c);
    }
    proof {
        assert(s@.take(s@.len() as int) == s@);
    }
    out
}

} // verus!
