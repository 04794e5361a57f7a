//! The lexer: the per-byte step, forced completion, and the end-of-stream
//! and lookahead queries.
use vstd::prelude::*;
use crate::engine::{Pattern, compile, pattern_compiles};
use crate::state::{
    ScanState, accepting, allowed_of, any_accepting, any_possible, accepts_some_of, dead, first_read,
    hidden_len, lane_at, lanes_ok, lowest_accepting, lowest_possible, state_for, texts,
};
use crate::vob::{SimpleVob, VobSet, all_clear};

verus! {

/// The index of a lexeme in the specification's list; a lower index has
/// priority over a higher one.
#[derive(Clone, Copy, Debug, PartialEq, Eq, Structural)]
pub struct LexemeIdx(pub usize);

/// A lexeme that has just ended.
#[derive(Clone, Copy, Debug, PartialEq, Eq)]
pub struct PreLexeme {
    pub idx: LexemeIdx,
    /// The byte that ended the scan; `None` when the end was forced.
    pub byte: Option<u8>,
    /// The trailing bytes taken by the automaton that are not part of the
    /// lexeme and start the next scan.
    pub hidden_len: usize,
}

/// The outcome of one step of a scan.
#[derive(Clone, Debug)]
pub enum LexerResult {
    Lexeme(PreLexeme),
    State(ScanState, u8),
    Error,
}

/// One lexeme: a name and its pattern.
#[derive(Clone, Debug)]
pub struct LexemeSpec {
    pub name: String,
    pub rx: String,
}

/// The lexemes in order of priority, and whether the longest match wins
/// (`greedy`) or the shortest.
#[derive(Clone, Debug)]
pub struct LexerSpec {
    pub lexemes: Vec<LexemeSpec>,
    pub greedy: bool,
}

/// Why a lexer could not be built.
#[derive(Clone, Copy, Debug, PartialEq, Eq)]
pub enum LexerError {
    /// The pattern of the lexeme with this index is not one the engine takes.
    InvalidPattern(usize),
}

/// The bytes fed to the automaton to probe whether the input may end: the
/// text `"\u{2}-EoS"`, which starts with a control character that real input
/// does not hold. A lexeme may end the input when its pattern matches them.
pub open spec fn eos_marker_bytes() -> Seq<u8> {
    seq![0x02u8, 0x2du8, 0x45u8, 0x6fu8, 0x53u8]
}

pub fn eos_marker() -> (r: Vec<u8>)
    ensures
        r@ == eos_marker_bytes(),
{
    let r: Vec<u8> = vec![0x02u8, 0x2du8, 0x45u8, 0x6fu8, 0x53u8];
    assert(r@ =~= eos_marker_bytes());
    r
}

/// The pattern texts of the lexemes of `spec`, in order.
pub open spec fn spec_patterns(spec: LexerSpec) -> Seq<Seq<char>> {
    spec.lexemes@.map_values(|l: LexemeSpec| l.rx@)
}

/// Some lexeme of `a` that the scan `s` was started with matches completely
/// once the end-of-stream marker is read after `s`'s bytes.
pub open spec fn eos_accepts(pats: Seq<Seq<char>>, s: ScanState, a: Seq<bool>) -> bool {
    exists|i: int|
        0 <= i < pats.len() && i < a.len() && a[i] && (#[trigger] lane_at(
            pats[i],
            s.allowed()[i],
            s.read() + eos_marker_bytes(),
        )).accept is Some
}

pub open spec fn lexeme_at(idx: int, byte: Option<u8>, hidden: nat) -> LexerResult {
    LexerResult::Lexeme(PreLexeme { idx: LexemeIdx(idx as usize), byte, hidden_len: hidden as usize })
}

/// What one step of a scan yields, given the state `prev` before the byte
/// and the state `next` that the automaton reaches on it.
pub open spec fn step_result(greedy: bool, prev: ScanState, next: ScanState, byte: u8) -> LexerResult {
    if dead(next@) {
        if greedy && any_accepting(prev@) {
            lexeme_at(lowest_accepting(prev@), Some(byte), hidden_len(prev@))
        } else {
            LexerResult::Error
        }
    } else if !greedy && any_accepting(next@) {
        lexeme_at(lowest_accepting(next@), Some(byte), hidden_len(next@))
    } else {
        LexerResult::State(next, byte)
    }
}

/// The decision of one step, from the states before and after the byte.
pub fn decide(greedy: bool, prev: &ScanState, next: ScanState, byte: u8) -> (r: LexerResult)
    ensures
        r == step_result(greedy, *prev, next, byte),
{
    if next.is_dead() {
        if !greedy {
            return LexerResult::Error;
        }
        // the lowest index wins: a keyword listed before the identifier
        // pattern is taken on the keyword's text
        match prev.lowest_accepting() {
            Some(idx) => LexerResult::Lexeme(
                PreLexeme { idx: LexemeIdx(idx), byte: Some(byte), hidden_len: prev.hidden_len() },
            ),
            None => LexerResult::Error,
        }
    } else {
        if !greedy {
            if let Some(idx) = next.lowest_accepting() {
                return LexerResult::Lexeme(
                    PreLexeme { idx: LexemeIdx(idx), byte: Some(byte), hidden_len: next.hidden_len() },
                );
            }
        }
        LexerResult::State(next, byte)
    }
}

impl LexerResult {
    pub fn is_error(&self) -> (r: bool)
        ensures
            r == (self is Error),
    {
        matches!(self, LexerResult::Error)
    }
}

/// A lexer over a fixed list of lexemes. The scan state is the caller's: it
/// is handed in and out of each step.
pub struct Lexer {
    dfa: Vec<Pattern>,
    spec: LexerSpec,
    vobset: VobSet,
}

impl Lexer {
    /// The number of lexemes.
    pub closed spec fn n(&self) -> nat {
        self.spec.lexemes@.len()
    }

    pub closed spec fn greedy(&self) -> bool {
        self.spec.greedy
    }

    pub closed spec fn lexer_spec(&self) -> LexerSpec {
        self.spec
    }

    /// The pattern texts of the lexemes, in order.
    pub open spec fn patterns(&self) -> Seq<Seq<char>> {
        spec_patterns(self.lexer_spec())
    }

    pub closed spec fn wf(&self) -> bool {
        &&& self.dfa@.len() == self.spec.lexemes@.len()
        &&& texts(self.dfa@) == spec_patterns(self.spec)
        &&& self.vobset.spec_size() == self.spec.lexemes@.len()
    }

    /// Builds the automaton of each lexeme; fails on the first pattern that
    /// the engine does not take.
    pub fn from(spec: LexerSpec) -> (r: Result<Lexer, LexerError>)
        ensures
            r is Ok <==> forall|i: int|
                0 <= i < spec.lexemes@.len() ==> pattern_compiles(
                    (#[trigger] spec.lexemes@[i]).rx@,
                ),
            r matches Ok(l) ==> l.wf() && l.lexer_spec() == spec && l.n() == spec.lexemes@.len()
                && l.greedy() == spec.greedy,
            r matches Err(LexerError::InvalidPattern(k)) ==> k < spec.lexemes@.len()
                && !pattern_compiles(spec.lexemes@[k as int].rx@) && forall|j: int|
                0 <= j < k ==> pattern_compiles((#[trigger] spec.lexemes@[j]).rx@),
    {
        let n = spec.lexemes.len();
        let mut dfa: Vec<Pattern> = Vec::new();
        let mut i: usize = 0;
        while i < n
            invariant
                n == spec.lexemes@.len(),
                i <= n,
                dfa@.len() == i,
                texts(dfa@) == spec_patterns(spec).take(i as int),
                forall|j: int| 0 <= j < i ==> pattern_compiles((#[trigger] spec.lexemes@[j]).rx@),
            decreases n - i,
        {
            match compile(spec.lexemes[i].rx.as_str()) {
                Ok(rx) => {
                    dfa.push(rx);
                    assert(texts(dfa@) =~= spec_patterns(spec).take(i + 1));
                },
                Err(_) => {
                    return Err(LexerError::InvalidPattern(i));
                },
            }
            i = i + 1;
        }
        assert(texts(dfa@) =~= spec_patterns(spec));
        let vobset = VobSet::new(n);
        Ok(Lexer { dfa, spec, vobset })
    }

    /// The pool of lexeme sets sized to this lexer.
    pub fn vobset(&self) -> (r: &VobSet)
        requires
            self.wf(),
        ensures
            r.spec_size() == self.n(),
    {
        &self.vobset
    }

    /// The state that starts a scan in which only the lexemes of
    /// `allowed_lexemes` may match, having read `first_byte` if one is given.
    pub fn start_state(&mut self, allowed_lexemes: &SimpleVob, first_byte: Option<u8>) -> (r:
        ScanState)
        requires
            old(self).wf(),
        ensures
            final(self).wf(),
            final(self).lexer_spec() == old(self).lexer_spec(),
            final(self).n() == old(self).n(),
            final(self).greedy() == old(self).greedy(),
            state_for(r, old(self).patterns()),
            r.read() == first_read(first_byte),
            r.allowed() == allowed_of(allowed_lexemes@, old(self).n()),
            lanes_ok(r@),
    {
        ScanState::start(&mut self.dfa, allowed_lexemes, first_byte)
    }

    /// A state from which no lexeme can match.
    pub fn a_dead_state(&self) -> (r: ScanState)
        requires
            self.wf(),
        ensures
            r@.len() == self.n(),
            dead(r@),
            lanes_ok(r@),
            state_for(r, self.patterns()),
    {
        let r = ScanState::dead_of(self.dfa.len());
        assert forall|i: int| 0 <= i < self.patterns().len() implies #[trigger] r@[i] == lane_at(
            self.patterns()[i],
            r.allowed()[i],
            r.read(),
        ) by {
            assert(!r.allowed()[i]);
        }
        r
    }

    /// The most bytes that the automaton may still hold back at `state`.
    pub fn possible_hidden_len(&self, state: &ScanState) -> (r: usize)
        ensures
            r == hidden_len(state@),
    {
        state.hidden_len()
    }

    /// Whether the input may end at `state` with one of `allowed_eos_lexemes`:
    /// the end-of-stream marker is read from `state` in a probe that is then
    /// dropped.
    pub fn allows_eos(&mut self, state: &ScanState, allowed_eos_lexemes: &SimpleVob) -> (r: bool)
        requires
            old(self).wf(),
            state_for(*state, old(self).patterns()),
        ensures
            final(self).wf(),
            final(self).lexer_spec() == old(self).lexer_spec(),
            final(self).n() == old(self).n(),
            final(self).greedy() == old(self).greedy(),
            r == (!all_clear(allowed_eos_lexemes@) && eos_accepts(
                old(self).patterns(),
                *state,
                allowed_eos_lexemes@,
            )),
    {
        if allowed_eos_lexemes.is_zero() {
            return false;
        }
        let marker = eos_marker();
        let ghost pats = self.patterns();
        let probe = state.step_bytes(&mut self.dfa, &marker);
        let r = probe.accepts_some_of(allowed_eos_lexemes);
        proof {
            let a = allowed_eos_lexemes@;
            if r {
                let i = choose|i: int| 0 <= i < a.len() && a[i] && accepting(probe@, i);
                assert(probe@[i] == lane_at(pats[i], state.allowed()[i], state.read() + eos_marker_bytes()));
            }
            if eos_accepts(pats, *state, a) {
                let i = choose|i: int|
                    0 <= i < pats.len() && i < a.len() && a[i] && (#[trigger] lane_at(
                        pats[i],
                        state.allowed()[i],
                        state.read() + eos_marker_bytes(),
                    )).accept is Some;
                assert(probe@[i] == lane_at(pats[i], state.allowed()[i], state.read() + eos_marker_bytes()));
                assert(accepting(probe@, i));
            }
        }
        r
    }

    /// Ends the scan at `prev` with no further byte: the lowest-indexed
    /// lexeme that can still match is taken.
    pub fn force_lexeme_end(&self, prev: &ScanState) -> (r: LexerResult)
        requires
            any_possible(prev@),
        ensures
            r == lexeme_at(lowest_possible(prev@), None, 0),
    {
        let idx = match prev.lowest_possible() {
            Some(i) => i,
            None => 0,
        };
        LexerResult::Lexeme(PreLexeme { idx: LexemeIdx(idx), byte: None, hidden_len: 0 })
    }

    /// One step of a scan: `prev` takes `byte`. `enable_logging` is taken for
    /// callers that pass it and has no effect on the result.
    pub fn advance(&mut self, prev: &ScanState, byte: u8, enable_logging: bool) -> (r: LexerResult)
        requires
            old(self).wf(),
            state_for(*prev, old(self).patterns()),
        ensures
            final(self).wf(),
            final(self).lexer_spec() == old(self).lexer_spec(),
            final(self).n() == old(self).n(),
            final(self).greedy() == old(self).greedy(),
            exists|next: ScanState|
                #[trigger] state_for(next, old(self).patterns()) && next.read() == prev.read().push(
                    byte,
                ) && next.allowed() == prev.allowed() && r == step_result(
                    old(self).greedy(),
                    *prev,
                    next,
                    byte,
                ),
    {
        let bytes: Vec<u8> = vec![byte];
        let next = prev.step_bytes(&mut self.dfa, &bytes);
        assert(prev.read() + bytes@ =~= prev.read().push(byte));
        let ghost reached = next;
        let r = decide(self.spec.greedy, prev, next, byte);
        assert(state_for(reached, old(self).patterns()));
        r
    }
}

} // verus!
