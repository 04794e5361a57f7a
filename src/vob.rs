//! Sets of lexeme indices, kept as one flag per lexeme.
use vstd::prelude::*;

verus! {

/// A set of lexeme indices: index `i` is in the set when flag `i` is on.
#[derive(Clone, Debug)]
pub struct SimpleVob {
    bits: Vec<bool>,
}

impl View for SimpleVob {
    type V = Seq<bool>;

    closed spec fn view(&self) -> Seq<bool> {
        self.bits@
    }
}

/// No index of `s` is in the set.
pub open spec fn all_clear(s: Seq<bool>) -> bool {
    forall|i: int| 0 <= i < s.len() ==> !s[i]
}

/// `i` is the lowest index in the set `s`.
pub open spec fn is_first_set(s: Seq<bool>, i: int) -> bool {
    &&& 0 <= i < s.len()
    &&& s[i]
    &&& forall|j: int| 0 <= j < i ==> !s[j]
}

impl SimpleVob {
    /// A set over `size` indices, none of them in it.
    pub fn new_empty(size: usize) -> (r: Self)
        ensures
            r@.len() == size,
            all_clear(r@),
    {
        let mut bits: Vec<bool> = Vec::new();
        let mut i: usize = 0;
        while i < size
            invariant
                i <= size,
                bits@.len() == i,
                forall|j: int| 0 <= j < i ==> !bits@[j],
            decreases size - i,
        {
            bits.push(false);
            i = i + 1;
        }
        SimpleVob { bits }
    }

    pub fn len(&self) -> (r: usize)
        ensures
            r == self@.len(),
    {
        self.bits.len()
    }

    pub fn is_allowed(&self, idx: usize) -> (r: bool)
        requires
            idx < self@.len(),
        ensures
            r == self@[idx as int],
    {
        self.bits[idx]
    }

    /// Puts `idx` in the set (`val` true) or takes it out (`val` false).
    pub fn set(&mut self, idx: usize, val: bool)
        requires
            idx < old(self)@.len(),
        ensures
            final(self)@ == old(self)@.update(idx as int, val),
    {
        self.bits.set(idx, val);
    }

    /// Whether the set is empty.
    pub fn is_zero(&self) -> (r: bool)
        ensures
            r == all_clear(self@),
    {
        let mut i: usize = 0;
        while i < self.bits.len()
            invariant
                i <= self@.len(),
                forall|j: int| 0 <= j < i ==> !self@[j],
            decreases self@.len() - i,
        {
            if self.bits[i] {
                return false;
            }
            i = i + 1;
        }
        true
    }

    /// Whether the two sets have no index in common.
    pub fn and_is_zero(&self, other: &SimpleVob) -> (r: bool)
        ensures
            r == (forall|i: int|
                0 <= i < self@.len() && i < other@.len() ==> !(self@[i] && other@[i])),
    {
        let mut i: usize = 0;
        while i < self.bits.len() && i < other.bits.len()
            invariant
                i <= self@.len(),
                i <= other@.len(),
                forall|j: int| 0 <= j < i ==> !(self@[j] && other@[j]),
            decreases self@.len() - i,
        {
            if self.bits[i] && other.bits[i] {
                return false;
            }
            i = i + 1;
        }
        true
    }

    /// The lowest index in the set, if there is one.
    pub fn first_bit_set(&self) -> (r: Option<usize>)
        ensures
            r is None <==> all_clear(self@),
            r matches Some(i) ==> is_first_set(self@, i as int),
    {
        let mut i: usize = 0;
        while i < self.bits.len()
            invariant
                i <= self@.len(),
                forall|j: int| 0 <= j < i ==> !self@[j],
            decreases self@.len() - i,
        {
            if self.bits[i] {
                return Some(i);
            }
            i = i + 1;
        }
        None
    }
}

/// The pool that hands out sets sized to one lexer's lexemes.
#[derive(Clone, Debug)]
pub struct VobSet {
    size: usize,
}

impl VobSet {
    pub closed spec fn spec_size(&self) -> nat {
        self.size as nat
    }

    pub fn new(size: usize) -> (r: Self)
        ensures
            r.spec_size() == size,
    {
        VobSet { size }
    }

    /// The number of lexemes that the sets of this pool range over.
    pub fn size(&self) -> (r: usize)
        ensures
            r == self.spec_size(),
    {
        self.size
    }

    /// A set over the pool's lexemes, none of them in it.
    pub fn empty_set(&self) -> (r: SimpleVob)
        ensures
            r@.len() == self.spec_size(),
            all_clear(r@),
    {
        SimpleVob::new_empty(self.size)
    }

    /// A set over the pool's lexemes, all of them in it.
    pub fn full_set(&self) -> (r: SimpleVob)
        ensures
            r@.len() == self.spec_size(),
            forall|i: int| 0 <= i < r@.len() ==> r@[i],
    {
        let mut r = SimpleVob::new_empty(self.size);
        let mut i: usize = 0;
        while i < self.size
            invariant
                i <= self.size,
                r@.len() == self.size,
                forall|j: int| 0 <= j < i ==> r@[j],
            decreases self.size - i,
        {
            r.set(i, true);
            i = i + 1;
        }
        r
    }
}

} // verus!
