//! Marshaling between opaque host cells and typed guest values.
//!
//! A cell is a run of machine words whose meaning is fixed by the type that
//! reads it. A type is either pointer-backed (the cell holds one host
//! pointer) or value-backed (the cell holds the value's words inline).

use vstd::prelude::*;

verus! {

/// How a marshaled type lays itself out in a cell.
#[derive(Clone, Copy, PartialEq, Eq, Structural, Debug)]
pub enum ReprKind {
    /// The cell holds one host pointer, which is the whole value.
    Pointer,
    /// The cell holds the value's words inline.
    Value,
}

/// An opaque host cell.
#[derive(Debug)]
pub struct RawCell {
    pub words: Vec<u64>,
}

impl RawCell {
    /// A cell of `n` words, each zero, for the host to write into.
    pub fn uninit(n: usize) -> (r: RawCell)
        ensures
            r.words@ == Seq::new(n as nat, |i: int| 0u64),
    {
        let mut words: Vec<u64> = Vec::new();
        let mut i: usize = 0;
        while i < n
            invariant
                i <= n,
                words@ == Seq::new(i as nat, |j: int| 0u64),
            decreases n - i,
        {
            words.push(0);
            i = i + 1;
            assert(words@ =~= Seq::new(i as nat, |j: int| 0u64));
        }
        RawCell { words }
    }
}

/// A type that crosses the host boundary through a cell.
pub trait GodotFfi: Sized {
    /// The words of the cell that stands for `self`.
    spec fn encode(&self) -> Seq<u64>;

    /// The value that a cell of the right size stands for.
    spec fn decode(words: Seq<u64>) -> Self;

    /// The number of words in a cell of this type.
    spec fn cell_len() -> nat;

    /// The cell of a value has the type's size and reads back as that value.
    proof fn lemma_decode_encode(v: Self)
        ensures
            v.encode().len() == Self::cell_len(),
            Self::decode(v.encode()) == v,
    ;

    /// The type's one representation kind.
    fn repr_kind() -> (r: ReprKind)
        ensures
            r == ReprKind::Pointer ==> Self::cell_len() == 1,
    ;

    /// The exec length of a cell of this type.
    fn cell_words() -> (r: usize)
        ensures
            r == Self::cell_len(),
    ;

    /// Reads a value out of a cell. The cell must have been produced for this
    /// type; its size is all that can be told of it here.
    fn from_sys(cell: &RawCell) -> (r: Self)
        requires
            cell.words@.len() == Self::cell_len(),
        ensures
            r == Self::decode(cell.words@),
    ;

    /// The cell that stands for `self`, for an operation that only reads.
    fn sys(&self) -> (r: RawCell)
        ensures
            r.words@ == self.encode(),
    ;

    /// Allocates a cell, lets `init` write into it, and reads the value out.
    fn from_sys_init<F: FnOnce(RawCell) -> RawCell>(init: F) -> (r: Self)
        requires
            forall|c: RawCell| c.words@.len() == Self::cell_len() ==> call_requires(init, (c,)),
            forall|c: RawCell, o: RawCell|
                c.words@.len() == Self::cell_len() && call_ensures(init, (c,), o) ==> o.words@.len()
                    == Self::cell_len(),
        ensures
            exists|c: RawCell, o: RawCell|
                c.words@.len() == Self::cell_len() && call_ensures(init, (c,), o) && r == Self::decode(
                    o.words@,
                ),
    {
        let cell = RawCell::uninit(Self::cell_words());
        let ghost before = cell;
        let filled = init(cell);
        let r = Self::from_sys(&filled);
        assert(before.words@.len() == Self::cell_len() && call_ensures(init, (before,), filled) && r
            == Self::decode(filled.words@));
        r
    }

    /// The cell that stands for `self`, for an operation that mutates the
    /// referenced data: the exclusive borrow rules out another live alias
    /// at the time of the call.
    fn sys_mut(&mut self) -> (r: RawCell)
        ensures
            r.words@ == old(self).encode(),
            *final(self) == *old(self),
    {
        self.sys()
    }
}

/// A raw host object pointer.
#[derive(Clone, Copy, PartialEq, Eq, Structural, Debug)]
pub struct ObjectPtr {
    pub addr: usize,
}

impl GodotFfi for ObjectPtr {
    open spec fn encode(&self) -> Seq<u64> {
        seq![self.addr as u64]
    }

    open spec fn decode(words: Seq<u64>) -> ObjectPtr {
        ObjectPtr { addr: words[0] as usize }
    }

    open spec fn cell_len() -> nat {
        1
    }

    proof fn lemma_decode_encode(v: ObjectPtr) {
    }

    fn repr_kind() -> (r: ReprKind) {
        ReprKind::Pointer
    }

    fn cell_words() -> (r: usize) {
        1
    }

    fn from_sys(cell: &RawCell) -> (r: ObjectPtr) {
        ObjectPtr { addr: cell.words[0] as usize }
    }

    fn sys(&self) -> (r: RawCell) {
        RawCell { words: vec![self.addr as u64] }
    }
}

/// Marshaling a value to its cell and back gives the value again, whatever
/// the type's representation kind.
pub proof fn lemma_cell_round_trip<T: GodotFfi>(v: T)
    ensures
        v.encode().len() == T::cell_len(),
        T::decode(v.encode()) == v,
{
    T::lemma_decode_encode(v);
}

} // verus!
