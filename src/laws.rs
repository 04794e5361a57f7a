//! Properties that hold of every step of every scan.
use vstd::prelude::*;
use crate::lexer::{LexerResult, lexeme_at, step_result};
use crate::state::{
    LaneInfo, ScanState, accepting, lane_at, state_for, any_accepting, dead, hidden_len, is_lowest_accepting,
    is_lowest_possible, lowest_accepting, lowest_possible, possible,
};

verus! {

/// Among accepting lexemes there is one of lowest index.
pub proof fn lemma_lowest_accepting_exists(s: Seq<LaneInfo>, k: int)
    requires
        accepting(s, k),
    ensures
        is_lowest_accepting(s, lowest_accepting(s)),
        lowest_accepting(s) <= k,
    decreases k,
{
    if exists|j: int| 0 <= j < k && accepting(s, j) {
        let j = choose|j: int| 0 <= j < k && accepting(s, j);
        lemma_lowest_accepting_exists(s, j);
    } else {
        assert(is_lowest_accepting(s, k));
    }
}

/// Among possible lexemes there is one of lowest index.
pub proof fn lemma_lowest_possible_exists(s: Seq<LaneInfo>, k: int)
    requires
        possible(s, k),
    ensures
        is_lowest_possible(s, lowest_possible(s)),
        lowest_possible(s) <= k,
    decreases k,
{
    if exists|j: int| 0 <= j < k && possible(s, j) {
        let j = choose|j: int| 0 <= j < k && possible(s, j);
        lemma_lowest_possible_exists(s, j);
    } else {
        assert(is_lowest_possible(s, k));
    }
}

/// The hidden length of a state fits in a `usize`.
pub proof fn lemma_hidden_len_fits(s: Seq<LaneInfo>)
    ensures
        hidden_len(s) <= usize::MAX,
    decreases s.len(),
{
    if s.len() > 0 {
        lemma_hidden_len_fits(s.drop_last());
    }
}

/// The state whose accepting lexemes a step's lexeme is taken from: the state
/// before the byte when the automaton died on it, else the state after.
pub open spec fn origin(prev: ScanState, next: ScanState) -> Seq<LaneInfo> {
    if dead(next@) {
        prev@
    } else {
        next@
    }
}

/// Two steps of a lexer from the same state on the same byte reach states
/// with the same view, and so give the same decision: the same lexeme, or
/// both an error, or both a state with that view and byte.
pub proof fn lemma_step_deterministic(
    pats: Seq<Seq<char>>,
    greedy: bool,
    prev: ScanState,
    n1: ScanState,
    n2: ScanState,
    byte: u8,
)
    requires
        state_for(n1, pats),
        state_for(n2, pats),
        n1.read() == prev.read().push(byte),
        n2.read() == prev.read().push(byte),
        n1.allowed() == prev.allowed(),
        n2.allowed() == prev.allowed(),
    ensures
        n1@ == n2@,
        step_result(greedy, prev, n1, byte) is Lexeme ==> step_result(greedy, prev, n1, byte)
            == step_result(greedy, prev, n2, byte),
        step_result(greedy, prev, n1, byte) is Error <==> step_result(greedy, prev, n2, byte) is Error,
        step_result(greedy, prev, n1, byte) is State <==> step_result(greedy, prev, n2, byte) is State,
{
    assert forall|i: int| 0 <= i < n1@.len() implies n1@[i] == n2@[i] by {
        assert(n1@[i] == lane_at(pats[i], n1.allowed()[i], n1.read()));
        assert(n2@[i] == lane_at(pats[i], n2.allowed()[i], n2.read()));
    }
    assert(n1@ =~= n2@);
}

/// When lexemes `i < j` both accept at the state a lexeme is taken from, the
/// lexeme taken is not `j`, and its index is at most `i`: the lowest index wins.
pub proof fn lemma_lowest_index_wins(
    greedy: bool,
    prev: ScanState,
    next: ScanState,
    byte: u8,
    i: int,
    j: int,
)
    requires
        step_result(greedy, prev, next, byte) is Lexeme,
        i < j,
        accepting(origin(prev, next), i),
        accepting(origin(prev, next), j),
    ensures
        step_result(greedy, prev, next, byte)->Lexeme_0.idx.0 <= i,
        step_result(greedy, prev, next, byte)->Lexeme_0.idx.0 != j,
        is_lowest_accepting(
            origin(prev, next),
            step_result(greedy, prev, next, byte)->Lexeme_0.idx.0 as int,
        ),
{
    let o = origin(prev, next);
    lemma_lowest_accepting_exists(o, i);
    prev.lemma_len_fits();
    next.lemma_len_fits();
}

/// When the end of a lexeme is forced and lexemes `i < j` are both possible,
/// the lexeme taken is not `j`, and its index is at most `i`.
pub proof fn lemma_forced_lowest_index_wins(prev: ScanState, i: int, j: int)
    requires
        i < j,
        possible(prev@, i),
        possible(prev@, j),
    ensures
        lexeme_at(lowest_possible(prev@), None, 0)->Lexeme_0.idx.0 <= i,
        lexeme_at(lowest_possible(prev@), None, 0)->Lexeme_0.idx.0 != j,
{
    lemma_lowest_possible_exists(prev@, i);
    prev.lemma_len_fits();
}

/// In greedy mode a step never ends a lexeme while some lexeme can still
/// match; when none can, it takes the previous state's match, the longest.
pub proof fn lemma_greedy_longest(prev: ScanState, next: ScanState, byte: u8)
    ensures
        !dead(next@) ==> step_result(true, prev, next, byte) == LexerResult::State(next, byte),
        dead(next@) && any_accepting(prev@) ==> step_result(true, prev, next, byte) == lexeme_at(
            lowest_accepting(prev@),
            Some(byte),
            hidden_len(prev@),
        ),
        dead(next@) && !any_accepting(prev@) ==> step_result(true, prev, next, byte) is Error,
{
}

/// In non-greedy mode a step ends a lexeme as soon as one accepts, whether
/// or not a longer match is still possible; it never ends one otherwise.
pub proof fn lemma_non_greedy_shortest(prev: ScanState, next: ScanState, byte: u8)
    ensures
        !dead(next@) && any_accepting(next@) ==> step_result(false, prev, next, byte) == lexeme_at(
            lowest_accepting(next@),
            Some(byte),
            hidden_len(next@),
        ),
        !any_accepting(next@) ==> !(step_result(false, prev, next, byte) is Lexeme),
{
}

/// The hidden length of a lexeme is at most the lookahead length of the
/// state it was taken from.
pub proof fn lemma_hidden_len_bounded(greedy: bool, prev: ScanState, next: ScanState, byte: u8)
    requires
        step_result(greedy, prev, next, byte) is Lexeme,
    ensures
        step_result(greedy, prev, next, byte)->Lexeme_0.hidden_len <= hidden_len(origin(prev, next)),
{
    lemma_hidden_len_fits(prev@);
    lemma_hidden_len_fits(next@);
}

} // verus!
