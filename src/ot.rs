//! Operations on text and how positions move across them.
//!
//! Operations are values of `operational_transform::OperationSeq`; their
//! primitives are read through `seq_prims`. All lengths and positions count
//! Unicode scalar values (`char`s).

use operational_transform::{Operation, OperationSeq};
use vstd::prelude::*;

verus! {

/// The primitives of `operational_transform`, whose variants and fields are
/// public and read as they stand.
#[verifier::external_type_specification]
pub struct ExOperation(Operation);

/// The operation sequence of `operational_transform`, whose fields are
/// private; its contents are `seq_prims`.
#[verifier::external_type_specification]
#[verifier::external_body]
pub struct ExOperationSeq(OperationSeq);

/// One primitive of an operation, as a mathematical value.
pub ghost enum Prim {
    Retain(nat),
    Delete(nat),
    Insert(Seq<char>),
}

/// The mathematical value of a stored primitive.
pub open spec fn prim_of(op: Operation) -> Prim {
    match op {
        Operation::Retain(n) => Prim::Retain(n as nat),
        Operation::Delete(n) => Prim::Delete(n as nat),
        Operation::Insert(s) => Prim::Insert(s@),
    }
}

/// The primitives that an operation sequence holds, in order.
pub uninterp spec fn seq_prims(o: OperationSeq) -> Seq<Prim>;

/// How many characters of the base string a primitive consumes.
pub open spec fn prim_base(p: Prim) -> nat {
    match p {
        Prim::Retain(n) => n,
        Prim::Delete(n) => n,
        Prim::Insert(_) => 0,
    }
}

/// How many characters of the result a primitive produces.
pub open spec fn prim_target(p: Prim) -> nat {
    match p {
        Prim::Retain(n) => n,
        Prim::Delete(_) => 0,
        Prim::Insert(s) => s.len(),
    }
}

/// Length of the strings that a list of primitives applies to.
pub open spec fn base_len_of(ps: Seq<Prim>) -> nat
    decreases ps.len(),
{
    if ps.len() == 0 {
        0
    } else {
        base_len_of(ps.drop_last()) + prim_base(ps.last())
    }
}

/// Length of the strings that a list of primitives produces.
pub open spec fn target_len_of(ps: Seq<Prim>) -> nat
    decreases ps.len(),
{
    if ps.len() == 0 {
        0
    } else {
        target_len_of(ps.drop_last()) + prim_target(ps.last())
    }
}

/// Both lengths of `ps` fit in `usize`. Only then do the lengths that an
/// `OperationSeq` stores, which are `usize` sums of the counts, equal them.
pub open spec fn lens_fit(ps: Seq<Prim>) -> bool {
    base_len_of(ps) <= usize::MAX && target_len_of(ps) <= usize::MAX
}

/// Appends a retain of `n`, merged into a retain that ends the list.
pub open spec fn push_retain(ps: Seq<Prim>, n: nat) -> Seq<Prim> {
    if n == 0 {
        ps
    } else if ps.len() > 0 && ps.last() is Retain {
        ps.drop_last().push(Prim::Retain(ps.last()->Retain_0 + n))
    } else {
        ps.push(Prim::Retain(n))
    }
}

/// Appends a delete of `n`, merged into a delete that ends the list.
pub open spec fn push_delete(ps: Seq<Prim>, n: nat) -> Seq<Prim> {
    if n == 0 {
        ps
    } else if ps.len() > 0 && ps.last() is Delete {
        ps.drop_last().push(Prim::Delete(ps.last()->Delete_0 + n))
    } else {
        ps.push(Prim::Delete(n))
    }
}

/// Appends an insert of `s`. It is merged into an insert that ends the list,
/// or that stands just before a final delete; an insert after a delete is
/// moved in front of it.
pub open spec fn push_insert(ps: Seq<Prim>, s: Seq<char>) -> Seq<Prim> {
    let n = ps.len();
    if s.len() == 0 {
        ps
    } else if n > 0 && ps.last() is Insert {
        ps.drop_last().push(Prim::Insert(ps.last()->Insert_0 + s))
    } else if n > 1 && ps.last() is Delete && ps[n - 2] is Insert {
        ps.update(n - 2, Prim::Insert(ps[n - 2]->Insert_0 + s))
    } else if n > 0 && ps.last() is Delete {
        ps.drop_last().push(Prim::Insert(s)).push(ps.last())
    } else {
        ps.push(Prim::Insert(s))
    }
}

/// The first `n` characters of `s`, or all of them.
pub open spec fn take_upto(s: Seq<char>, n: nat) -> Seq<char> {
    if n <= s.len() {
        s.take(n as int)
    } else {
        s
    }
}

/// `s` without its first `n` characters, or empty.
pub open spec fn skip_upto(s: Seq<char>, n: nat) -> Seq<char> {
    if n <= s.len() {
        s.skip(n as int)
    } else {
        Seq::empty()
    }
}

/// The text that a list of primitives makes of `s`: retained characters are
/// copied, deleted ones dropped, inserted strings written out.
pub open spec fn apply_prims(ps: Seq<Prim>, s: Seq<char>) -> Seq<char>
    decreases ps.len(),
{
    if ps.len() == 0 {
        Seq::empty()
    } else {
        let rest = ps.skip(1);
        match ps[0] {
            Prim::Retain(n) => take_upto(s, n) + apply_prims(rest, skip_upto(s, n)),
            Prim::Delete(n) => apply_prims(rest, skip_upto(s, n)),
            Prim::Insert(t) => t + apply_prims(rest, s),
        }
    }
}

/// The inverse of `ps` on the base text `s`: retains stay, inserts become
/// deletes, and deletes become inserts of the characters they removed.
pub open spec fn invert_prims(ps: Seq<Prim>, s: Seq<char>) -> Seq<Prim>
    decreases ps.len(),
{
    if ps.len() == 0 {
        Seq::empty()
    } else {
        let pre = ps.drop_last();
        let inv = invert_prims(pre, s);
        match ps.last() {
            Prim::Retain(n) => push_retain(inv, n),
            Prim::Insert(t) => push_delete(inv, t.len()),
            Prim::Delete(n) => push_insert(inv, take_upto(skip_upto(s, base_len_of(pre)), n)),
        }
    }
}

/// Whether `ps` changes no text: it is empty or a single retain.
pub open spec fn is_noop_prims(ps: Seq<Prim>) -> bool {
    ps.len() == 0 || (ps.len() == 1 && ps[0] is Retain)
}

/// Where a position stands after the primitives `ps`, given the part of the
/// position not yet consumed (`index`) and the position so far (`moved`).
/// Insertions push it right, deletions before it pull it left, and the walk
/// stops once the position lies behind the primitives seen.
pub open spec fn index_walk(ps: Seq<Prim>, index: int, moved: int) -> int
    decreases ps.len(),
{
    if ps.len() == 0 {
        moved
    } else {
        let (i2, m2) = match ps[0] {
            Prim::Retain(n) => (index - n, moved),
            Prim::Insert(s) => (index, moved + s.len()),
            Prim::Delete(n) => (index - n, moved - if index < n { index } else { n as int }),
        };
        if i2 < 0 {
            m2
        } else {
            index_walk(ps.skip(1), i2, m2)
        }
    }
}

/// The new place of `position` after an edit with primitives `ps`, held to
/// the range of `u32`.
pub open spec fn transform_index_spec(ps: Seq<Prim>, position: u32) -> u32 {
    let r = index_walk(ps, position as int, position as int);
    if r > u32::MAX {
        u32::MAX
    } else {
        r as u32
    }
}

/// What composing two operations gives.
pub uninterp spec fn composed(a: Seq<Prim>, b: Seq<Prim>) -> Seq<Prim>;

/// What transforming two concurrent operations gives.
pub uninterp spec fn transformed(a: Seq<Prim>, b: Seq<Prim>) -> (Seq<Prim>, Seq<Prim>);

/// Relies on `bytecount::num_chars`: the number of code points in well-formed
/// UTF-8, which a `&str` always is.
#[verifier::external_body]
pub(crate) fn char_count(s: &str) -> (r: usize)
    ensures
        r == s@.len(),
{
    bytecount::num_chars(s.as_bytes())
}

/// Relies on `OperationSeq::ops`: the stored primitives, in order.
#[verifier::external_body]
pub(crate) fn items(o: &OperationSeq) -> (r: &[Operation])
    ensures
        r@.map_values(|op: Operation| prim_of(op)) == seq_prims(*o),
{
    o.ops()
}

/// Relies on `OperationSeq::default`: a sequence without primitives.
#[verifier::external_body]
pub(crate) fn seq_new() -> (r: OperationSeq)
    ensures
        seq_prims(r) == Seq::<Prim>::empty(),
{
    OperationSeq::default()
}

/// Relies on `OperationSeq::with_capacity`: a sequence without primitives.
#[verifier::external_body]
pub(crate) fn seq_with_capacity(capacity: usize) -> (r: OperationSeq)
    ensures
        seq_prims(r) == Seq::<Prim>::empty(),
{
    OperationSeq::with_capacity(capacity)
}

/// Relies on the derived `Clone` of `OperationSeq`: the same primitives.
pub assume_specification[ <OperationSeq as Clone>::clone ](o: &OperationSeq) -> (r: OperationSeq)
    ensures
        seq_prims(r) == seq_prims(*o),
;

/// Relies on `OperationSeq::retain`, which merges into a final retain and
/// adds `n` to both stored lengths (an overflow there would panic).
#[verifier::external_body]
pub(crate) fn seq_retain(o: &mut OperationSeq, n: u64)
    requires
        base_len_of(seq_prims(*old(o))) + n <= usize::MAX,
        target_len_of(seq_prims(*old(o))) + n <= usize::MAX,
    ensures
        seq_prims(*final(o)) == push_retain(seq_prims(*old(o)), n as nat),
{
    o.retain(n)
}

/// Relies on `OperationSeq::delete`, which merges into a final delete and
/// adds `n` to the stored base length (an overflow there would panic).
#[verifier::external_body]
pub(crate) fn seq_delete(o: &mut OperationSeq, n: u64)
    requires
        base_len_of(seq_prims(*old(o))) + n <= usize::MAX,
    ensures
        seq_prims(*final(o)) == push_delete(seq_prims(*old(o)), n as nat),
{
    o.delete(n)
}

/// Relies on `OperationSeq::insert`, which merges inserts, keeps an insert in
/// front of a final delete, and adds the code-point count of `s` to the stored
/// target length (an overflow there would panic).
#[verifier::external_body]
pub(crate) fn seq_insert(o: &mut OperationSeq, s: &str)
    requires
        target_len_of(seq_prims(*old(o))) + s@.len() <= usize::MAX,
    ensures
        seq_prims(*final(o)) == push_insert(seq_prims(*old(o)), s@),
{
    o.insert(s)
}

/// Relies on `OperationSeq::base_len`: the stored base length, which the
/// builders keep as a `usize` sum of the counts; it is the true sum when that
/// fits.
#[verifier::external_body]
pub(crate) fn seq_base_len(o: &OperationSeq) -> (r: usize)
    ensures
        base_len_of(seq_prims(*o)) <= usize::MAX ==> r == base_len_of(seq_prims(*o)),
{
    o.base_len()
}

/// Relies on `OperationSeq::is_noop`: no primitives, or one retain.
#[verifier::external_body]
pub(crate) fn seq_is_noop(o: &OperationSeq) -> (r: bool)
    ensures
        r == is_noop_prims(seq_prims(*o)),
{
    o.is_noop()
}

/// Relies on `OperationSeq::apply`: it fails exactly when the code-point
/// length of `s` differs from the stored base length (the true one where it
/// fits), and otherwise walks the primitives over `s`.
#[verifier::external_body]
pub(crate) fn seq_apply(o: &OperationSeq, s: &str) -> (r: Option<String>)
    ensures
        base_len_of(seq_prims(*o)) <= usize::MAX ==> (r is Some <==> s@.len() == base_len_of(
            seq_prims(*o),
        )),
        r is Some ==> r->Some_0@ == apply_prims(seq_prims(*o), s@),
{
    o.apply(s).ok()
}

/// Relies on `OperationSeq::compose`. Where the lengths of both operations
/// fit in `usize`, it fails exactly when the target length of `a` differs
/// from the base length of `b`; otherwise the result has the base length of
/// `a` and the target length of `b` and, as documented, applied to a text
/// does what `a` and then `b` do.
#[verifier::external_body]
pub(crate) fn seq_compose(a: &OperationSeq, b: &OperationSeq) -> (r: Option<OperationSeq>)
    ensures
        lens_fit(seq_prims(*a)) && lens_fit(seq_prims(*b)) ==> (r is Some <==> target_len_of(
            seq_prims(*a),
        ) == base_len_of(seq_prims(*b))),
        r is Some ==> seq_prims(r->Some_0) == composed(seq_prims(*a), seq_prims(*b)),
        r is Some && lens_fit(seq_prims(*a)) && lens_fit(seq_prims(*b)) ==> base_len_of(
            seq_prims(r->Some_0),
        ) == base_len_of(seq_prims(*a)),
        r is Some && lens_fit(seq_prims(*a)) && lens_fit(seq_prims(*b)) ==> target_len_of(
            seq_prims(r->Some_0),
        ) == target_len_of(seq_prims(*b)),
        r is Some && lens_fit(seq_prims(*a)) && lens_fit(seq_prims(*b)) ==> forall|s: Seq<char>|
            s.len() == base_len_of(seq_prims(*a)) ==> #[trigger] apply_prims(
                seq_prims(r->Some_0),
                s,
            ) == apply_prims(seq_prims(*b), apply_prims(seq_prims(*a), s)),
{
    a.compose(b).ok()
}

/// Relies on `OperationSeq::transform`: it fails exactly when the base
/// lengths differ; otherwise, as documented, `(a2, b2)` satisfies
/// `apply(apply(s, a), b2) == apply(apply(s, b), a2)`. The common target
/// length of the results, the length of the text with both edits, is at most
/// the sum of the target lengths, which must fit.
#[verifier::external_body]
pub(crate) fn seq_transform(a: &OperationSeq, b: &OperationSeq) -> (r: Option<(OperationSeq, OperationSeq)>)
    requires
        target_len_of(seq_prims(*a)) + target_len_of(seq_prims(*b)) <= usize::MAX,
    ensures
        r is Some <==> base_len_of(seq_prims(*a)) == base_len_of(seq_prims(*b)),
        r is Some ==> (seq_prims(r->Some_0.0), seq_prims(r->Some_0.1)) == transformed(
            seq_prims(*a),
            seq_prims(*b),
        ),
        r is Some ==> base_len_of(seq_prims(r->Some_0.0)) == target_len_of(seq_prims(*b)),
        r is Some ==> base_len_of(seq_prims(r->Some_0.1)) == target_len_of(seq_prims(*a)),
        r is Some ==> target_len_of(seq_prims(r->Some_0.0)) == target_len_of(seq_prims(r->Some_0.1)),
        r is Some ==> target_len_of(seq_prims(r->Some_0.0)) <= target_len_of(seq_prims(*a))
            + target_len_of(seq_prims(*b)),
        r is Some ==> forall|s: Seq<char>|
            s.len() == base_len_of(seq_prims(*a)) ==> #[trigger] apply_prims(
                seq_prims(r->Some_0.1),
                apply_prims(seq_prims(*a), s),
            ) == apply_prims(seq_prims(r->Some_0.0), apply_prims(seq_prims(*b), s)),
{
    a.transform(b).ok()
}

/// Relies on `OperationSeq::invert`: retains are kept, inserts become
/// deletes, and deletes become inserts of the characters of `s` they
/// removed, each added through the merging builders.
#[verifier::external_body]
pub(crate) fn seq_invert(o: &OperationSeq, s: &str) -> (r: OperationSeq)
    ensures
        seq_prims(r) == invert_prims(seq_prims(*o), s@),
{
    o.invert(s)
}

/// Relies on `OperationSeq::target_len`: the stored target length, which the
/// builders keep as a `usize` sum of the counts; it is the true sum when that
/// fits.
#[verifier::external_body]
pub(crate) fn seq_target_len(o: &OperationSeq) -> (r: usize)
    ensures
        target_len_of(seq_prims(*o)) <= usize::MAX ==> r == target_len_of(seq_prims(*o)),
{
    o.target_len()
}

/// Both lengths of a prefix grow by one primitive at a time and never pass
/// those of the whole.
pub proof fn lemma_lens_prefix(ps: Seq<Prim>, i: int)
    requires
        0 <= i <= ps.len(),
    ensures
        base_len_of(ps.take(i)) <= base_len_of(ps),
        target_len_of(ps.take(i)) <= target_len_of(ps),
    decreases ps.len() - i,
{
    if i < ps.len() {
        lemma_lens_prefix(ps, i + 1);
        assert(ps.take(i + 1).drop_last() =~= ps.take(i));
    } else {
        assert(ps.take(i) =~= ps);
    }
}

/// Whether both lengths of `o` fit in `usize`, found by summing its counts.
pub fn lengths_fit(o: &OperationSeq) -> (r: bool)
    ensures
        r == lens_fit(seq_prims(*o)),
{
    let ops = items(o);
    let ghost ps = seq_prims(*o);
    let mut base: usize = 0;
    let mut target: usize = 0;
    let mut i: usize = 0;
    while i < ops.len()
        invariant
            ops@.map_values(|op: Operation| prim_of(op)) == ps,
            ps == seq_prims(*o),
            0 <= i <= ops.len(),
            base == base_len_of(ps.take(i as int)),
            target == target_len_of(ps.take(i as int)),
        decreases ops.len() - i,
    {
        proof {
            lemma_lens_prefix(ps, i as int + 1);
            assert(ps.take(i as int + 1).drop_last() =~= ps.take(i as int));
            assert(ps[i as int] == prim_of(ops@[i as int]));
        }
        match &ops[i] {
            Operation::Retain(n) => {
                if *n as u128 > (usize::MAX - base) as u128 || *n as u128 > (usize::MAX
                    - target) as u128 {
                    return false;
                }
                base = base + *n as usize;
                target = target + *n as usize;
            },
            Operation::Delete(n) => {
                if *n as u128 > (usize::MAX - base) as u128 {
                    return false;
                }
                base = base + *n as usize;
            },
            Operation::Insert(s) => {
                let c = char_count(s.as_str());
                if c > usize::MAX - target {
                    return false;
                }
                target = target + c;
            },
        }
        i += 1;
    }
    proof {
        assert(ps.take(i as int) =~= ps);
    }
    true
}

/// The walk never ends below the position so far less what is left of it.
proof fn lemma_walk_lower(ps: Seq<Prim>, index: int, moved: int)
    requires
        0 <= index,
    ensures
        index_walk(ps, index, moved) >= moved - index,
    decreases ps.len(),
{
    if ps.len() > 0 {
        let (i2, m2) = match ps[0] {
            Prim::Retain(n) => (index - n, moved),
            Prim::Insert(s) => (index, moved + s.len()),
            Prim::Delete(n) => (index - n, moved - if index < n { index } else { n as int }),
        };
        if i2 >= 0 {
            lemma_walk_lower(ps.skip(1), i2, m2);
        }
    }
}

fn clamp_u32(v: i128) -> (r: u32)
    requires
        v >= 0,
    ensures
        r == (if v > u32::MAX { u32::MAX } else { v as u32 }),
{
    if v > u32::MAX as i128 {
        u32::MAX
    } else {
        v as u32
    }
}

/// Returns the new index of a position in the text after `operation`.
pub fn transform_index(operation: &OperationSeq, position: u32) -> (r: u32)
    ensures
        r == transform_index_spec(seq_prims(*operation), position),
{
    let ops = items(operation);
    let ghost ps = seq_prims(*operation);
    let ghost total = index_walk(ps, position as int, position as int);
    let mut index: i128 = position as i128;
    let mut moved: i128 = position as i128;
    let mut i: usize = 0;
    proof {
        assert(ps.skip(0) =~= ps);
    }
    while i < ops.len()
        invariant
            ops@.map_values(|op: Operation| prim_of(op)) == ps,
            ps == seq_prims(*operation),
            0 <= i <= ops.len(),
            0 <= index <= moved,
            index <= position,
            moved <= u32::MAX + index,
            total == index_walk(ps, position as int, position as int),
            total == index_walk(ps.skip(i as int), index as int, moved as int),
        decreases ops.len() - i,
    {
        proof {
            assert(ps.skip(i as int).skip(1) =~= ps.skip(i as int + 1));
            assert(ps.skip(i as int)[0] == ps[i as int]);
            assert(ps[i as int] == prim_of(ops@[i as int]));
        }
        match &ops[i] {
            Operation::Retain(n) => {
                index = index - *n as i128;
            },
            Operation::Insert(s) => {
                let c = char_count(s.as_str());
                moved = moved + c as i128;
            },
            Operation::Delete(n) => {
                let d: i128 = if index < *n as i128 {
                    index
                } else {
                    *n as i128
                };
                moved = moved - d;
                index = index - *n as i128;
            },
        }
        if index < 0 {
            return clamp_u32(moved);
        }
        if moved > u32::MAX as i128 + index {
            proof {
                lemma_walk_lower(ps.skip(i as int + 1), index as int, moved as int);
            }
            return u32::MAX;
        }
        i += 1;
    }
    proof {
        assert(ps.skip(i as int).len() == 0);
    }
    clamp_u32(moved)
}

} // verus!
