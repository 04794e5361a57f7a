//! The scan state: one automaton state per lexeme, run side by side.
use vstd::prelude::*;
use crate::vob::SimpleVob;
use crate::engine::{Pattern, lexeme_live, lexeme_lookahead, live_after, lookahead_after};

verus! {

/// What the lexer knows of one lexeme's automaton at a scan state.
#[derive(Clone, Copy, Debug)]
pub(crate) struct Lane {
    pub(crate) live: bool,
    pub(crate) lookahead: Option<usize>,
}

/// The view of one lane: whether the lexeme can still match (`live`), and,
/// when its match is complete, the length of its trailing lookahead.
pub struct LaneInfo {
    pub live: bool,
    pub accept: Option<usize>,
}

impl Lane {
    pub(crate) open spec fn info(self) -> LaneInfo {
        LaneInfo { live: self.live, accept: self.lookahead }
    }
}

/// A scan state of a lexer: lane `i` belongs to the lexeme of index `i`.
/// The DEAD state is the one in which no lane is live.
#[derive(Clone, Debug)]
pub struct ScanState {
    read: Vec<u8>,
    allowed: Vec<bool>,
    lanes: Vec<Lane>,
}

impl View for ScanState {
    type V = Seq<LaneInfo>;

    closed spec fn view(&self) -> Seq<LaneInfo> {
        self.lanes@.map_values(|l: Lane| l.info())
    }
}

/// Lexeme `i` could still match if scanning goes on.
pub open spec fn possible(s: Seq<LaneInfo>, i: int) -> bool {
    0 <= i < s.len() && s[i].live
}

/// The match of lexeme `i` is complete.
pub open spec fn accepting(s: Seq<LaneInfo>, i: int) -> bool {
    0 <= i < s.len() && s[i].accept is Some
}

/// No lexeme can match from this state.
pub open spec fn dead(s: Seq<LaneInfo>) -> bool {
    forall|i: int| 0 <= i < s.len() ==> !s[i].live
}

pub open spec fn any_accepting(s: Seq<LaneInfo>) -> bool {
    exists|i: int| accepting(s, i)
}

pub open spec fn any_possible(s: Seq<LaneInfo>) -> bool {
    exists|i: int| possible(s, i)
}

/// `i` is the lowest index of an accepting lexeme: the one with priority.
pub open spec fn is_lowest_accepting(s: Seq<LaneInfo>, i: int) -> bool {
    accepting(s, i) && forall|j: int| 0 <= j < i ==> !accepting(s, j)
}

/// `i` is the lowest index of a possible lexeme.
pub open spec fn is_lowest_possible(s: Seq<LaneInfo>, i: int) -> bool {
    possible(s, i) && forall|j: int| 0 <= j < i ==> !possible(s, j)
}

pub open spec fn lowest_accepting(s: Seq<LaneInfo>) -> int {
    choose|i: int| is_lowest_accepting(s, i)
}

pub open spec fn lowest_possible(s: Seq<LaneInfo>) -> int {
    choose|i: int| is_lowest_possible(s, i)
}

pub open spec fn lane_lookahead(l: LaneInfo) -> nat {
    match l.accept {
        Some(n) => n as nat,
        None => 0,
    }
}

/// The most bytes that an accepting lexeme of the state may still hold back.
pub open spec fn hidden_len(s: Seq<LaneInfo>) -> nat
    decreases s.len(),
{
    if s.len() == 0 {
        0
    } else {
        let m = hidden_len(s.drop_last());
        let l = lane_lookahead(s.last());
        if l > m { l } else { m }
    }
}

/// A lexeme accepts only while it can still match.
pub open spec fn lanes_ok(s: Seq<LaneInfo>) -> bool {
    forall|i: int| 0 <= i < s.len() && (#[trigger] s[i]).accept is Some ==> s[i].live
}

/// The pattern texts of a lexer's compiled patterns.
pub open spec fn texts(pats: Seq<Pattern>) -> Seq<Seq<char>> {
    pats.map_values(|p: Pattern| p.text())
}

/// The lane of a lexeme of pattern `rx` after reading `w`: it can match only
/// if the scan was started with it and the automaton is still alive.
pub open spec fn lane_at(rx: Seq<char>, allowed: bool, w: Seq<u8>) -> LaneInfo {
    let live = allowed && lexeme_live(rx, w);
    LaneInfo { live, accept: if live { lexeme_lookahead(rx, w) } else { None } }
}

/// `s` is the state of a lexer with patterns `pats` after reading
/// `s.read()`, started with the lexemes `s.allowed()`.
pub open spec fn state_for(s: ScanState, pats: Seq<Seq<char>>) -> bool {
    &&& s@.len() == pats.len()
    &&& s.allowed().len() == pats.len()
    &&& forall|i: int| 0 <= i < pats.len() ==> #[trigger] s@[i] == lane_at(pats[i], s.allowed()[i], s.read())
}

/// The allowed flags of a scan over `n` lexemes started with the set `a`.
pub open spec fn allowed_of(a: Seq<bool>, n: nat) -> Seq<bool> {
    Seq::new(n, |i: int| i < a.len() && a[i])
}

/// The bytes read at the start of a scan.
pub open spec fn first_read(first_byte: Option<u8>) -> Seq<u8> {
    match first_byte {
        Some(b) => seq![b],
        None => Seq::empty(),
    }
}

/// Some index in `allowed` is accepting in `s`.
pub open spec fn accepts_some_of(s: Seq<LaneInfo>, allowed: Seq<bool>) -> bool {
    exists|i: int| 0 <= i < allowed.len() && allowed[i] && accepting(s, i)
}

/// The lowest index satisfying a property is unique.
pub proof fn lemma_lowest_accepting_unique(s: Seq<LaneInfo>, i: int)
    requires
        is_lowest_accepting(s, i),
    ensures
        lowest_accepting(s) == i,
{
    let c = lowest_accepting(s);
    assert(is_lowest_accepting(s, c));
    if c < i {
        assert(!accepting(s, c));
    } else if c > i {
        assert(!accepting(s, i));
    }
}

pub proof fn lemma_lowest_possible_unique(s: Seq<LaneInfo>, i: int)
    requires
        is_lowest_possible(s, i),
    ensures
        lowest_possible(s) == i,
{
    let c = lowest_possible(s);
    assert(is_lowest_possible(s, c));
    if c < i {
        assert(!possible(s, c));
    } else if c > i {
        assert(!possible(s, i));
    }
}

impl ScanState {
    pub proof fn lemma_len_fits(&self)
        ensures
            self@.len() <= usize::MAX,
    {
        assert(self@.len() == self.lanes.len());
    }

    /// The bytes read since the scan started.
    pub closed spec fn read(&self) -> Seq<u8> {
        self.read@
    }

    /// The lexemes that the scan was started with.
    pub closed spec fn allowed(&self) -> Seq<bool> {
        self.allowed@
    }

    /// The scan state in which each lane is that of its pattern in `pats`,
    /// with the lexemes of `allowed`, after reading `read`.
    fn compute(pats: &mut Vec<Pattern>, allowed: Vec<bool>, read: Vec<u8>) -> (r: ScanState)
        requires
            allowed@.len() == old(pats)@.len(),
        ensures
            texts(final(pats)@) == texts(old(pats)@),
            final(pats)@.len() == old(pats)@.len(),
            r.read() == read@,
            r.allowed() == allowed@,
            state_for(r, texts(old(pats)@)),
    {
        let n = pats.len();
        let ghost t = texts(pats@);
        let mut lanes: Vec<Lane> = Vec::new();
        let mut i: usize = 0;
        while i < n
            invariant
                n == pats@.len(),
                n == allowed@.len(),
                t == texts(old(pats)@),
                texts(pats@) == t,
                i <= n,
                lanes@.len() == i,
                forall|j: int|
                    0 <= j < i ==> (#[trigger] lanes@[j]).info() == lane_at(t[j], allowed@[j], read@),
            decreases n - i,
        {
            let lane = if allowed[i] {
                let live = live_after(pats, i, &read);
                proof {
                    assert(texts(pats@) =~= t);
                }
                if live {
                    let lookahead = lookahead_after(pats, i, &read);
                    proof {
                        assert(texts(pats@) =~= t);
                    }
                    Lane { live: true, lookahead }
                } else {
                    Lane { live: false, lookahead: None }
                }
            } else {
                Lane { live: false, lookahead: None }
            };
            lanes.push(lane);
            i = i + 1;
        }
        let r = ScanState { read, allowed, lanes };
        assert forall|j: int| 0 <= j < r@.len() implies #[trigger] r@[j] == lane_at(
            t[j],
            r.allowed()[j],
            r.read(),
        ) by {
            assert(r@[j] == r.lanes@[j].info());
        }
        r
    }

    /// The state that starts a scan in which only the lexemes of `allowed`
    /// may match, having read `first_byte` if one is given.
    pub(crate) fn start(pats: &mut Vec<Pattern>, allowed: &SimpleVob, first_byte: Option<u8>) -> (r:
        ScanState)
        ensures
            texts(final(pats)@) == texts(old(pats)@),
            final(pats)@.len() == old(pats)@.len(),
            r.read() == first_read(first_byte),
            r.allowed() == allowed_of(allowed@, old(pats)@.len()),
            state_for(r, texts(old(pats)@)),
    {
        let n = pats.len();
        let mut flags: Vec<bool> = Vec::new();
        let mut i: usize = 0;
        while i < n
            invariant
                n == pats@.len(),
                i <= n,
                flags@ == allowed_of(allowed@, n as nat).take(i as int),
            decreases n - i,
        {
            flags.push(i < allowed.len() && allowed.is_allowed(i));
            i = i + 1;
            assert(flags@ =~= allowed_of(allowed@, n as nat).take(i as int));
        }
        assert(flags@ =~= allowed_of(allowed@, n as nat));
        let mut read: Vec<u8> = Vec::new();
        if let Some(b) = first_byte {
            read.push(b);
        }
        assert(read@ =~= first_read(first_byte));
        ScanState::compute(pats, flags, read)
    }

    /// The state reached from this one on the bytes `bytes`.
    pub(crate) fn step_bytes(&self, pats: &mut Vec<Pattern>, bytes: &Vec<u8>) -> (r: ScanState)
        requires
            state_for(*self, texts(old(pats)@)),
        ensures
            texts(final(pats)@) == texts(old(pats)@),
            final(pats)@.len() == old(pats)@.len(),
            r.read() == self.read() + bytes@,
            r.allowed() == self.allowed(),
            state_for(r, texts(old(pats)@)),
    {
        let mut read: Vec<u8> = Vec::new();
        let mut i: usize = 0;
        while i < self.read.len()
            invariant
                i <= self.read@.len(),
                read@ == self.read@.take(i as int),
            decreases self.read@.len() - i,
        {
            read.push(self.read[i]);
            i = i + 1;
            assert(read@ =~= self.read@.take(i as int));
        }
        let mut k: usize = 0;
        while k < bytes.len()
            invariant
                i == self.read@.len(),
                k <= bytes@.len(),
                read@ == self.read@ + bytes@.take(k as int),
            decreases bytes@.len() - k,
        {
            read.push(bytes[k]);
            k = k + 1;
            assert(read@ =~= self.read@ + bytes@.take(k as int));
        }
        assert(read@ =~= self.read@ + bytes@);
        let mut allowed: Vec<bool> = Vec::new();
        let mut j: usize = 0;
        while j < self.allowed.len()
            invariant
                j <= self.allowed@.len(),
                allowed@ == self.allowed@.take(j as int),
            decreases self.allowed@.len() - j,
        {
            allowed.push(self.allowed[j]);
            j = j + 1;
            assert(allowed@ =~= self.allowed@.take(j as int));
        }
        assert(allowed@ =~= self.allowed@);
        ScanState::compute(pats, allowed, read)
    }

    /// The state over `n` lexemes in which none can match.
    pub(crate) fn dead_of(n: usize) -> (r: ScanState)
        ensures
            r@.len() == n,
            dead(r@),
            lanes_ok(r@),
            r.read() == Seq::<u8>::empty(),
            r.allowed() == Seq::new(n as nat, |i: int| false),
    {
        let mut lanes: Vec<Lane> = Vec::new();
        let mut allowed: Vec<bool> = Vec::new();
        let mut i: usize = 0;
        while i < n
            invariant
                i <= n,
                lanes@.len() == i,
                allowed@ == Seq::new(i as nat, |j: int| false),
                forall|j: int| 0 <= j < i ==> !(#[trigger] lanes@[j]).live && lanes@[j].lookahead is None,
            decreases n - i,
        {
            lanes.push(Lane { live: false, lookahead: None });
            allowed.push(false);
            i = i + 1;
            assert(allowed@ =~= Seq::new(i as nat, |j: int| false));
        }
        let r = ScanState { read: Vec::new(), allowed, lanes };
        assert forall|j: int| 0 <= j < r@.len() implies !(#[trigger] r@[j]).live && r@[j].accept is None by {
            assert(r@[j] == r.lanes@[j].info());
        }
        assert(r.read() =~= Seq::<u8>::empty());
        r
    }

    pub fn len(&self) -> (r: usize)
        ensures
            r == self@.len(),
    {
        self.lanes.len()
    }

    /// Whether no lexeme can match from this state.
    pub fn is_dead(&self) -> (r: bool)
        ensures
            r == dead(self@),
    {
        let mut i: usize = 0;
        while i < self.lanes.len()
            invariant
                i <= self@.len(),
                forall|j: int| 0 <= j < i ==> !self@[j].live,
            decreases self@.len() - i,
        {
            if self.lanes[i].live {
                assert(self@[i as int].live);
                return false;
            }
            i = i + 1;
        }
        true
    }

    /// The accepting lexeme with the lowest index, if any accepts.
    pub fn lowest_accepting(&self) -> (r: Option<usize>)
        ensures
            r is None <==> !any_accepting(self@),
            r matches Some(i) ==> is_lowest_accepting(self@, i as int) && i == lowest_accepting(
                self@,
            ),
    {
        let mut i: usize = 0;
        while i < self.lanes.len()
            invariant
                i <= self@.len(),
                forall|j: int| 0 <= j < i ==> !accepting(self@, j),
            decreases self@.len() - i,
        {
            if self.lanes[i].lookahead.is_some() {
                proof {
                    lemma_lowest_accepting_unique(self@, i as int);
                }
                return Some(i);
            }
            i = i + 1;
        }
        None
    }

    /// The possible lexeme with the lowest index, if any is possible.
    pub fn lowest_possible(&self) -> (r: Option<usize>)
        ensures
            r is None <==> !any_possible(self@),
            r matches Some(i) ==> is_lowest_possible(self@, i as int) && i == lowest_possible(
                self@,
            ),
    {
        let mut i: usize = 0;
        while i < self.lanes.len()
            invariant
                i <= self@.len(),
                forall|j: int| 0 <= j < i ==> !possible(self@, j),
            decreases self@.len() - i,
        {
            if self.lanes[i].live {
                proof {
                    lemma_lowest_possible_unique(self@, i as int);
                }
                return Some(i);
            }
            i = i + 1;
        }
        None
    }

    /// The most bytes that an accepting lexeme of this state may hold back.
    pub fn hidden_len(&self) -> (r: usize)
        ensures
            r == hidden_len(self@),
    {
        let mut m: usize = 0;
        let mut i: usize = 0;
        while i < self.lanes.len()
            invariant
                i <= self@.len(),
                m == hidden_len(self@.take(i as int)),
            decreases self@.len() - i,
        {
            proof {
                assert(self@.take(i + 1).drop_last() == self@.take(i as int));
                assert(self@.take(i + 1).last() == self@[i as int]);
            }
            let l: usize = match self.lanes[i].lookahead {
                Some(n) => n,
                None => 0,
            };
            if l > m {
                m = l;
            }
            i = i + 1;
        }
        proof {
            assert(self@.take(self@.len() as int) == self@);
        }
        m
    }

    /// Whether some lexeme in `allowed` is accepting in this state.
    pub fn accepts_some_of(&self, allowed: &SimpleVob) -> (r: bool)
        ensures
            r == accepts_some_of(self@, allowed@),
    {
        let n = allowed.len();
        let mut i: usize = 0;
        while i < n && i < self.lanes.len()
            invariant
                n == allowed@.len(),
                i <= n,
                i <= self@.len(),
                forall|j: int| 0 <= j < i ==> !(allowed@[j] && accepting(self@, j)),
            decreases n - i,
        {
            if allowed.is_allowed(i) && self.lanes[i].lookahead.is_some() {
                return true;
            }
            i = i + 1;
        }
        false
    }
}

} // verus!
