//! A value type around an operation sequence, with the full operation
//! algebra as methods.

use crate::algebra::{
    lemma_invert_lens, lemma_invert_undoes, lemma_push_delete_lens, lemma_push_insert_lens,
    lemma_push_retain_lens,
};
use crate::ot::{
    apply_prims, base_len_of, composed, invert_prims, is_noop_prims, lens_fit, lengths_fit, push_delete, push_insert,
    push_retain,
    seq_apply, seq_base_len, seq_compose, seq_delete, seq_insert, seq_invert, seq_is_noop,
    seq_new, seq_prims, seq_retain, seq_target_len, seq_transform, seq_with_capacity,
    target_len_of, transform_index, transform_index_spec, transformed, Prim,
};
use operational_transform::OperationSeq;
use vstd::prelude::*;

verus! {

/// An operation on text: a sequence of retains, inserts and deletes.
#[derive(Clone, Debug, PartialEq)]
pub struct OpSeq(pub OperationSeq);

/// Two operations, as `transform` returns them.
#[derive(Clone, Debug, PartialEq)]
pub struct OpSeqPair(pub OpSeq, pub OpSeq);

impl View for OpSeq {
    type V = Seq<Prim>;

    open spec fn view(&self) -> Seq<Prim> {
        seq_prims(self.0)
    }
}

impl OpSeq {
    /// Length of the texts this operation applies to.
    pub open spec fn base(&self) -> nat {
        base_len_of(self@)
    }

    /// Length of the texts this operation produces.
    pub open spec fn target(&self) -> nat {
        target_len_of(self@)
    }

    /// Both lengths fit in `usize`, as the lengths the operation stores.
    pub open spec fn fits(&self) -> bool {
        lens_fit(self@)
    }

    /// Whether both lengths fit in `usize`. An operation read from a client
    /// may claim lengths past that; its stored lengths then do not hold.
    pub fn lengths_fit(&self) -> (r: bool)
        ensures
            r == self.fits(),
    {
        lengths_fit(&self.0)
    }

    /// Transforms two concurrent operations `self` (A) and `other` (B) into
    /// `(A', B')` such that `apply(apply(S, A), B') == apply(apply(S, B), A')`.
    /// Returns `None` when the base lengths differ.
    pub fn transform_raw(&self, other: &OpSeq) -> (r: Option<(OpSeq, OpSeq)>)
        requires
            self.target() + other.target() <= usize::MAX,
        ensures
            r is Some <==> self.base() == other.base(),
            r is Some ==> (r->Some_0.0@, r->Some_0.1@) == transformed(self@, other@),
            r is Some ==> r->Some_0.0.base() == other.target() && r->Some_0.1.base()
                == self.target(),
            r is Some ==> r->Some_0.0.target() == r->Some_0.1.target(),
            r is Some ==> forall|s: Seq<char>|
                s.len() == self.base() ==> #[trigger] apply_prims(
                    r->Some_0.1@,
                    apply_prims(self@, s),
                ) == apply_prims(r->Some_0.0@, apply_prims(other@, s)),
    {
        match seq_transform(&self.0, &other.0) {
            Some((a, b)) => Some((OpSeq(a), OpSeq(b))),
            None => None,
        }
    }

    /// An operation without primitives.
    pub fn new() -> (r: Self)
        ensures
            r@ == Seq::<Prim>::empty(),
    {
        OpSeq(seq_new())
    }

    /// An operation without primitives, with room for `capacity` of them.
    pub fn with_capacity(capacity: usize) -> (r: Self)
        ensures
            r@ == Seq::<Prim>::empty(),
    {
        OpSeq(seq_with_capacity(capacity))
    }

    /// Merges `self` and then `other` into one operation:
    /// `apply(apply(S, A), B) == apply(S, compose(A, B))`. Returns `None`
    /// when the target length of `self` differs from the base length of
    /// `other`. What is said of lengths holds where both operations `fits()`.
    pub fn compose(&self, other: &OpSeq) -> (r: Option<OpSeq>)
        ensures
            self.fits() && other.fits() ==> (r is Some <==> self.target() == other.base()),
            r is Some ==> r->Some_0@ == composed(self@, other@),
            r is Some && self.fits() && other.fits() ==> r->Some_0.base() == self.base()
                && r->Some_0.target() == other.target(),
            r is Some && self.fits() && other.fits() ==> forall|s: Seq<char>|
                s.len() == self.base() ==> #[trigger] apply_prims(r->Some_0@, s) == apply_prims(
                    other@,
                    apply_prims(self@, s),
                ),
    {
        match seq_compose(&self.0, &other.0) {
            Some(c) => Some(OpSeq(c)),
            None => None,
        }
    }

    /// Deletes `n` characters at the current position.
    pub fn delete(&mut self, n: u32)
        requires
            old(self).base() + n <= usize::MAX,
        ensures
            final(self)@ == push_delete(old(self)@, n as nat),
            final(self).base() == old(self).base() + n,
            final(self).target() == old(self).target(),
    {
        proof {
            lemma_push_delete_lens(self@, n as nat);
        }
        seq_delete(&mut self.0, n as u64)
    }

    /// Inserts `s` at the current position.
    pub fn insert(&mut self, s: &str)
        requires
            old(self).target() + s@.len() <= usize::MAX,
        ensures
            final(self)@ == push_insert(old(self)@, s@),
            final(self).base() == old(self).base(),
            final(self).target() == old(self).target() + s@.len(),
    {
        proof {
            lemma_push_insert_lens(self@, s@);
        }
        seq_insert(&mut self.0, s)
    }

    /// Moves the current position `n` characters forward.
    pub fn retain(&mut self, n: u32)
        requires
            old(self).base() + n <= usize::MAX,
            old(self).target() + n <= usize::MAX,
        ensures
            final(self)@ == push_retain(old(self)@, n as nat),
            final(self).base() == old(self).base() + n,
            final(self).target() == old(self).target() + n,
    {
        proof {
            lemma_push_retain_lens(self@, n as nat);
        }
        seq_retain(&mut self.0, n as u64)
    }

    /// As `transform_raw`, with the two results in an `OpSeqPair`.
    pub fn transform(&self, other: &OpSeq) -> (r: Option<OpSeqPair>)
        requires
            self.target() + other.target() <= usize::MAX,
        ensures
            r is Some <==> self.base() == other.base(),
            r is Some ==> (r->Some_0.0@, r->Some_0.1@) == transformed(self@, other@),
            r is Some ==> r->Some_0.0.base() == other.target() && r->Some_0.1.base()
                == self.target(),
            r is Some ==> r->Some_0.0.target() == r->Some_0.1.target(),
            r is Some ==> forall|s: Seq<char>|
                s.len() == self.base() ==> #[trigger] apply_prims(
                    r->Some_0.1@,
                    apply_prims(self@, s),
                ) == apply_prims(r->Some_0.0@, apply_prims(other@, s)),
    {
        match self.transform_raw(other) {
            Some((a, b)) => Some(OpSeqPair(a, b)),
            None => None,
        }
    }

    /// Applies the operation to `s`; `None` when the length of `s` in code
    /// points is not the base length (where that fits in `usize`).
    pub fn apply(&self, s: &str) -> (r: Option<String>)
        ensures
            self.base() <= usize::MAX ==> (r is Some <==> s@.len() == self.base()),
            r is Some ==> r->Some_0@ == apply_prims(self@, s@),
    {
        seq_apply(&self.0, s)
    }

    /// The operation that undoes `self` on the text `s`:
    /// `apply(invert(o, s), apply(o, s)) == s`.
    pub fn invert(&self, s: &str) -> (r: Self)
        ensures
            r@ == invert_prims(self@, s@),
            s@.len() >= self.base() ==> r.base() == self.target() && r.target() == self.base(),
            s@.len() == self.base() ==> apply_prims(r@, apply_prims(self@, s@)) == s@,
    {
        proof {
            if s@.len() >= self.base() {
                lemma_invert_lens(self@, s@);
            }
            if s@.len() == self.base() {
                lemma_invert_undoes(self@, s@);
            }
        }
        OpSeq(seq_invert(&self.0, s))
    }

    /// Whether the operation changes nothing: no primitives, or one retain.
    pub fn is_noop(&self) -> (r: bool)
        ensures
            r == is_noop_prims(self@),
    {
        seq_is_noop(&self.0)
    }

    /// Length in code points of the texts this operation applies to, as
    /// stored: the true length where it fits in `usize`.
    pub fn base_len(&self) -> (r: usize)
        ensures
            self.base() <= usize::MAX ==> r == self.base(),
    {
        seq_base_len(&self.0)
    }

    /// Length in code points of the texts this operation produces, as
    /// stored: the true length where it fits in `usize`.
    pub fn target_len(&self) -> (r: usize)
        ensures
            self.target() <= usize::MAX ==> r == self.target(),
    {
        seq_target_len(&self.0)
    }

    /// The new index of `position` after this operation.
    pub fn transform_index(&self, position: u32) -> (r: u32)
        ensures
            r == transform_index_spec(self@, position),
    {
        transform_index(&self.0, position)
    }
}

impl Default for OpSeq {
    fn default() -> (r: Self)
        ensures
            r@ == Seq::<Prim>::empty(),
    {
        OpSeq::new()
    }
}

impl OpSeqPair {
    /// The first operation of the pair.
    pub fn first(&self) -> (r: OpSeq)
        ensures
            r@ == self.0@,
    {
        OpSeq(self.0.0.clone())
    }

    /// The second operation of the pair.
    pub fn second(&self) -> (r: OpSeq)
        ensures
            r@ == self.1@,
    {
        OpSeq(self.1.0.clone())
    }
}

} // verus!
