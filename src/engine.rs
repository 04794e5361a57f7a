//! The outside automaton engine: derivre compiles each lexeme pattern into a
//! deterministic automaton over bytes. Only these items call into it. A
//! compiled automaton stays paired with the pattern text it was built from,
//! and the engine's states never leave this module.
use vstd::prelude::*;
use derivre::Regex;

verus! {

#[verifier::external_type_specification]
#[verifier::external_body]
pub struct ExRegex(derivre::Regex);

#[verifier::external_type_specification]
#[verifier::external_body]
pub struct ExError(anyhow::Error);

/// Whether derivre accepts `rx` as a pattern.
pub uninterp spec fn pattern_compiles(rx: Seq<char>) -> bool;

/// Whether, after reading `w` from its start, the automaton of `rx` is in a
/// state other than derivre's DEAD one, so that some continuation matches.
pub uninterp spec fn lexeme_live(rx: Seq<char>, w: Seq<u8>) -> bool;

/// What derivre's `lookahead_len_bytes` gives for `rx` on `w`: `Some` when
/// `w` is a complete match, with the length of the trailing lookahead.
pub uninterp spec fn lexeme_lookahead(rx: Seq<char>, w: Seq<u8>) -> Option<usize>;

/// A compiled pattern, with the text it was compiled from.
pub struct Pattern {
    rx: String,
    re: Regex,
}

impl Pattern {
    pub closed spec fn text(&self) -> Seq<char> {
        self.rx@
    }
}

/// Relies on `derivre::Regex::new`: it parses the pattern and builds its
/// automaton; whether it fails depends on the pattern text alone.
#[verifier::external_body]
pub(crate) fn compile(rx: &str) -> (r: Result<Pattern, anyhow::Error>)
    ensures
        r is Ok <==> pattern_compiles(rx@),
        r matches Ok(p) ==> p.text() == rx@,
{
    match Regex::new(rx) {
        Ok(re) => Ok(Pattern { rx: rx.to_string(), re }),
        Err(e) => Err(e),
    }
}

/// Relies on `derivre::Regex::initial_state`, `transition_bytes` and
/// `StateID::is_dead`: whether the state reached on `w` is not DEAD.
#[verifier::external_body]
pub(crate) fn live_after(pats: &mut Vec<Pattern>, i: usize, w: &Vec<u8>) -> (r: bool)
    requires
        i < old(pats).len(),
    ensures
        final(pats).len() == old(pats).len(),
        forall|j: int| 0 <= j < old(pats).len() ==> (#[trigger] final(pats)[j]).text() == old(pats)[j].text(),
        r == lexeme_live(old(pats)[i as int].text(), w@),
{
    let re = &mut pats[i].re;
    let s = re.initial_state();
    !re.transition_bytes(s, w).is_dead()
}

/// Relies on `derivre::Regex::lookahead_len_bytes`: `None` when the automaton
/// dies on `w` or does not accept after it.
#[verifier::external_body]
pub(crate) fn lookahead_after(pats: &mut Vec<Pattern>, i: usize, w: &Vec<u8>) -> (r: Option<usize>)
    requires
        i < old(pats).len(),
    ensures
        final(pats).len() == old(pats).len(),
        forall|j: int| 0 <= j < old(pats).len() ==> (#[trigger] final(pats)[j]).text() == old(pats)[j].text(),
        r == lexeme_lookahead(old(pats)[i as int].text(), w@),
        !lexeme_live(old(pats)[i as int].text(), w@) ==> r is None,
{
    pats[i].re.lookahead_len_bytes(w)
}

} // verus!
