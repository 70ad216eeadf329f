//! Facts about applying primitives, and the law that an inverse undoes its
//! operation.

use crate::ot::{
    apply_prims, base_len_of, invert_prims, prim_base, prim_target, push_delete, push_insert,
    push_retain, skip_upto, take_upto, target_len_of, Prim,
};
use vstd::prelude::*;

verus! {

/// Appending a retain of `n` adds `n` to both lengths.
pub proof fn lemma_push_retain_lens(ps: Seq<Prim>, n: nat)
    ensures
        base_len_of(push_retain(ps, n)) == base_len_of(ps) + n,
        target_len_of(push_retain(ps, n)) == target_len_of(ps) + n,
{
    let r = push_retain(ps, n);
    if n > 0 {
        if ps.len() > 0 && ps.last() is Retain {
            assert(r.drop_last() =~= ps.drop_last());
        } else {
            assert(r.drop_last() =~= ps);
        }
    }
}

/// Appending a delete of `n` adds `n` to the base length only.
pub proof fn lemma_push_delete_lens(ps: Seq<Prim>, n: nat)
    ensures
        base_len_of(push_delete(ps, n)) == base_len_of(ps) + n,
        target_len_of(push_delete(ps, n)) == target_len_of(ps),
{
    let r = push_delete(ps, n);
    if n > 0 {
        if ps.len() > 0 && ps.last() is Delete {
            assert(r.drop_last() =~= ps.drop_last());
        } else {
            assert(r.drop_last() =~= ps);
        }
    }
}

/// Appending an insert of `s` adds its number of code points to the target
/// length only.
pub proof fn lemma_push_insert_lens(ps: Seq<Prim>, s: Seq<char>)
    ensures
        base_len_of(push_insert(ps, s)) == base_len_of(ps),
        target_len_of(push_insert(ps, s)) == target_len_of(ps) + s.len(),
{
    let r = push_insert(ps, s);
    let n = ps.len();
    if s.len() > 0 {
        if n > 0 && ps.last() is Insert {
            assert(r.drop_last() =~= ps.drop_last());
        } else if n > 1 && ps.last() is Delete && ps[n - 2] is Insert {
            let pre = ps.drop_last();
            assert(r.drop_last() =~= pre.drop_last().push(Prim::Insert(ps[n - 2]->Insert_0 + s)));
            assert(r.drop_last().drop_last() =~= pre.drop_last());
            assert(r.last() == ps.last());
            assert(base_len_of(r.drop_last()) == base_len_of(r.drop_last().drop_last()) + prim_base(r.drop_last().last()));
            assert(target_len_of(r.drop_last()) == target_len_of(r.drop_last().drop_last()) + prim_target(r.drop_last().last()));
            assert(base_len_of(ps.drop_last()) == base_len_of(ps.drop_last().drop_last()) + prim_base(ps.drop_last().last()));
            assert(target_len_of(ps.drop_last()) == target_len_of(ps.drop_last().drop_last()) + prim_target(ps.drop_last().last()));
        } else if n > 0 && ps.last() is Delete {
            assert(r.drop_last() =~= ps.drop_last().push(Prim::Insert(s)));
            assert(r.drop_last().drop_last() =~= ps.drop_last());
            assert(base_len_of(r.drop_last()) == base_len_of(r.drop_last().drop_last()) + prim_base(r.drop_last().last()));
            assert(target_len_of(r.drop_last()) == target_len_of(r.drop_last().drop_last()) + prim_target(r.drop_last().last()));
        } else {
            assert(r.drop_last() =~= ps);
        }
    }
}

/// The lengths of a nonempty list, split after its first primitive.
pub proof fn lemma_lens_front(ps: Seq<Prim>)
    requires
        ps.len() > 0,
    ensures
        base_len_of(ps) == prim_base(ps[0]) + base_len_of(ps.skip(1)),
        target_len_of(ps) == prim_target(ps[0]) + target_len_of(ps.skip(1)),
    decreases ps.len(),
{
    if ps.len() == 1 {
        assert(ps.skip(1) =~= Seq::<Prim>::empty());
        assert(ps.drop_last() =~= Seq::<Prim>::empty());
    } else {
        let d = ps.drop_last();
        lemma_lens_front(d);
        assert(d.skip(1) =~= ps.skip(1).drop_last());
        assert(ps.skip(1).last() == ps.last());
        assert(d[0] == ps[0]);
    }
}

/// Applied to a text of its base length, a list gives a text of its target
/// length.
pub proof fn lemma_apply_len(ps: Seq<Prim>, s: Seq<char>)
    requires
        s.len() == base_len_of(ps),
    ensures
        apply_prims(ps, s).len() == target_len_of(ps),
    decreases ps.len(),
{
    if ps.len() > 0 {
        lemma_lens_front(ps);
        let rest = ps.skip(1);
        match ps[0] {
            Prim::Retain(n) => {
                lemma_apply_len(rest, s.skip(n as int));
            },
            Prim::Delete(n) => {
                lemma_apply_len(rest, s.skip(n as int));
            },
            Prim::Insert(t) => {
                lemma_apply_len(rest, s);
            },
        }
    }
}

/// Applying two lists one after the other to a text of their joint base
/// length applies each to its own part of the text.
pub proof fn lemma_apply_concat(p1: Seq<Prim>, p2: Seq<Prim>, s: Seq<char>)
    requires
        s.len() == base_len_of(p1) + base_len_of(p2),
    ensures
        apply_prims(p1 + p2, s) == apply_prims(p1, s.take(base_len_of(p1) as int)) + apply_prims(
            p2,
            s.skip(base_len_of(p1) as int),
        ),
    decreases p1.len(),
{
    let b1 = base_len_of(p1) as int;
    if p1.len() == 0 {
        assert(p1 + p2 =~= p2);
        assert(s.skip(0) =~= s);
        assert(Seq::<char>::empty() + apply_prims(p2, s) =~= apply_prims(p2, s));
    } else {
        lemma_lens_front(p1);
        let rest = p1.skip(1);
        let br = base_len_of(rest) as int;
        assert((p1 + p2)[0] == p1[0]);
        assert((p1 + p2).skip(1) =~= rest + p2);
        match p1[0] {
            Prim::Retain(n) => {
                let s2 = s.skip(n as int);
                lemma_apply_concat(rest, p2, s2);
                assert(s.take(b1).skip(n as int) =~= s2.take(br));
                assert(s.take(b1).take(n as int) =~= s.take(n as int));
                assert(s2.skip(br) =~= s.skip(b1));
                let x = s.take(n as int);
                let y = apply_prims(rest, s2.take(br));
                let z = apply_prims(p2, s2.skip(br));
                assert(x + (y + z) =~= (x + y) + z);
            },
            Prim::Delete(n) => {
                let s2 = s.skip(n as int);
                lemma_apply_concat(rest, p2, s2);
                assert(s.take(b1).skip(n as int) =~= s2.take(br));
                assert(s2.skip(br) =~= s.skip(b1));
            },
            Prim::Insert(t) => {
                lemma_apply_concat(rest, p2, s);
                let y = apply_prims(rest, s.take(br));
                let z = apply_prims(p2, s.skip(br));
                assert(t + (y + z) =~= (t + y) + z);
            },
        }
    }
}

/// The lengths of a one-primitive list, and what it makes of a text of its
/// base length.
pub proof fn lemma_apply_single(x: Prim, z: Seq<char>)
    requires
        z.len() == prim_base(x),
    ensures
        base_len_of(seq![x]) == prim_base(x),
        target_len_of(seq![x]) == prim_target(x),
        apply_prims(seq![x], z) == match x {
            Prim::Retain(_) => z,
            Prim::Delete(_) => Seq::<char>::empty(),
            Prim::Insert(t) => t,
        },
{
    let p = seq![x];
    assert(p.drop_last() =~= Seq::<Prim>::empty());
    assert(p.skip(1) =~= Seq::<Prim>::empty());
    assert(p.last() == x);
    assert(p[0] == x);
    assert(base_len_of(p.drop_last()) == 0);
    assert(target_len_of(p.drop_last()) == 0);
    match x {
        Prim::Retain(n) => {
            assert(apply_prims(p.skip(1), skip_upto(z, n)) == Seq::<char>::empty());
            assert(z.take(n as int) =~= z);
            assert(z + Seq::<char>::empty() =~= z);
        },
        Prim::Delete(n) => {
            assert(apply_prims(p.skip(1), skip_upto(z, n)) == Seq::<char>::empty());
        },
        Prim::Insert(t) => {
            assert(apply_prims(p.skip(1), z) == Seq::<char>::empty());
            assert(t + Seq::<char>::empty() =~= t);
        },
    }
}

/// A retain appended by `push_retain` copies the rest of the text.
proof fn lemma_push_retain_apply(ps: Seq<Prim>, n: nat, y: Seq<char>)
    requires
        y.len() == base_len_of(ps) + n,
    ensures
        apply_prims(push_retain(ps, n), y) == apply_prims(ps, y.take(base_len_of(ps) as int))
            + y.skip(base_len_of(ps) as int),
{
    let bp = base_len_of(ps) as int;
    if n == 0 {
        assert(y.take(bp) =~= y);
        assert(apply_prims(ps, y) + y.skip(bp) =~= apply_prims(ps, y));
    } else if ps.len() > 0 && ps.last() is Retain {
        let m = ps.last()->Retain_0;
        let pre = ps.drop_last();
        let bq = base_len_of(pre) as int;
        assert(ps =~= pre + seq![Prim::Retain(m)]);
        assert(push_retain(ps, n) =~= pre + seq![Prim::Retain(m + n)]);
        lemma_apply_single(Prim::Retain(m + n), y.skip(bq));
        lemma_apply_single(Prim::Retain(m), y.take(bp).skip(bq));
        lemma_apply_concat(pre, seq![Prim::Retain(m + n)], y);
        lemma_apply_concat(pre, seq![Prim::Retain(m)], y.take(bp));
        assert(y.take(bp).take(bq) =~= y.take(bq));
        let a = apply_prims(pre, y.take(bq));
        assert(a + y.take(bp).skip(bq) + y.skip(bp) =~= a + y.skip(bq));
    } else {
        assert(push_retain(ps, n) =~= ps + seq![Prim::Retain(n)]);
        lemma_apply_single(Prim::Retain(n), y.skip(bp));
        lemma_apply_concat(ps, seq![Prim::Retain(n)], y);
    }
}

/// A delete appended by `push_delete` drops the rest of the text.
proof fn lemma_push_delete_apply(ps: Seq<Prim>, n: nat, y: Seq<char>)
    requires
        y.len() == base_len_of(ps) + n,
    ensures
        apply_prims(push_delete(ps, n), y) == apply_prims(ps, y.take(base_len_of(ps) as int)),
{
    let bp = base_len_of(ps) as int;
    if n == 0 {
        assert(y.take(bp) =~= y);
    } else if ps.len() > 0 && ps.last() is Delete {
        let m = ps.last()->Delete_0;
        let pre = ps.drop_last();
        let bq = base_len_of(pre) as int;
        assert(ps =~= pre + seq![Prim::Delete(m)]);
        assert(push_delete(ps, n) =~= pre + seq![Prim::Delete(m + n)]);
        lemma_apply_single(Prim::Delete(m + n), y.skip(bq));
        lemma_apply_single(Prim::Delete(m), y.take(bp).skip(bq));
        lemma_apply_concat(pre, seq![Prim::Delete(m + n)], y);
        lemma_apply_concat(pre, seq![Prim::Delete(m)], y.take(bp));
        assert(y.take(bp).take(bq) =~= y.take(bq));
        let a = apply_prims(pre, y.take(bq));
        assert(a + Seq::<char>::empty() =~= a);
    } else {
        assert(push_delete(ps, n) =~= ps + seq![Prim::Delete(n)]);
        lemma_apply_single(Prim::Delete(n), y.skip(bp));
        lemma_apply_concat(ps, seq![Prim::Delete(n)], y);
        let a = apply_prims(ps, y.take(bp));
        assert(a + Seq::<char>::empty() =~= a);
    }
}

/// An insert appended by `push_insert` writes its text at the end.
proof fn lemma_push_insert_apply(ps: Seq<Prim>, t: Seq<char>, y: Seq<char>)
    requires
        y.len() == base_len_of(ps),
    ensures
        apply_prims(push_insert(ps, t), y) == apply_prims(ps, y) + t,
{
    let n = ps.len();
    let bp = base_len_of(ps) as int;
    assert(y.take(bp) =~= y);
    if t.len() == 0 {
        assert(apply_prims(ps, y) + t =~= apply_prims(ps, y));
    } else if n > 0 && ps.last() is Insert {
        let u = ps.last()->Insert_0;
        let pre = ps.drop_last();
        assert(ps =~= pre + seq![Prim::Insert(u)]);
        assert(push_insert(ps, t) =~= pre + seq![Prim::Insert(u + t)]);
        lemma_apply_single(Prim::Insert(u + t), y.skip(bp));
        lemma_apply_single(Prim::Insert(u), y.skip(bp));
        lemma_apply_concat(pre, seq![Prim::Insert(u + t)], y);
        lemma_apply_concat(pre, seq![Prim::Insert(u)], y);
        let a = apply_prims(pre, y.take(bp));
        assert(a + (u + t) =~= (a + u) + t);
    } else if n > 1 && ps.last() is Delete && ps[n - 2] is Insert {
        let d = ps.last()->Delete_0;
        let u = ps[n - 2]->Insert_0;
        let pre = ps.drop_last().drop_last();
        let bq = base_len_of(pre) as int;
        let tail_old = seq![Prim::Insert(u), Prim::Delete(d)];
        let tail_new = seq![Prim::Insert(u + t), Prim::Delete(d)];
        assert(ps =~= pre + tail_old);
        assert(push_insert(ps, t) =~= pre + tail_new);
        assert(tail_old.skip(1) =~= seq![Prim::Delete(d)]);
        assert(tail_new.skip(1) =~= seq![Prim::Delete(d)]);
        assert(tail_old.drop_last() =~= seq![Prim::Insert(u)]);
        assert(tail_new.drop_last() =~= seq![Prim::Insert(u + t)]);
        assert(ps.drop_last() =~= pre.push(Prim::Insert(u)));
        assert(base_len_of(ps) == base_len_of(ps.drop_last()) + d);
        assert(base_len_of(ps.drop_last()) == base_len_of(pre));
        lemma_apply_single(Prim::Delete(d), y.skip(bq));
        lemma_apply_single(Prim::Insert(u), Seq::empty());
        lemma_apply_single(Prim::Insert(u + t), Seq::empty());
        assert(base_len_of(tail_old) == base_len_of(seq![Prim::Insert(u)]) + d);
        assert(base_len_of(tail_new) == base_len_of(seq![Prim::Insert(u + t)]) + d);
        lemma_apply_concat(pre, tail_old, y);
        lemma_apply_concat(pre, tail_new, y);
        let a = apply_prims(pre, y.take(bq));
        assert(u + Seq::<char>::empty() =~= u);
        assert((u + t) + Seq::<char>::empty() =~= u + t);
        assert(a + (u + t) =~= (a + u) + t);
    } else if n > 0 && ps.last() is Delete {
        let d = ps.last()->Delete_0;
        let pre = ps.drop_last();
        let bq = base_len_of(pre) as int;
        let tail_new = seq![Prim::Insert(t), Prim::Delete(d)];
        assert(ps =~= pre + seq![Prim::Delete(d)]);
        assert(push_insert(ps, t) =~= pre + tail_new);
        assert(tail_new.skip(1) =~= seq![Prim::Delete(d)]);
        assert(tail_new.drop_last() =~= seq![Prim::Insert(t)]);
        lemma_apply_single(Prim::Delete(d), y.skip(bq));
        lemma_apply_single(Prim::Insert(t), Seq::empty());
        assert(base_len_of(tail_new) == base_len_of(seq![Prim::Insert(t)]) + d);
        lemma_apply_concat(pre, tail_new, y);
        lemma_apply_concat(pre, seq![Prim::Delete(d)], y);
        let a = apply_prims(pre, y.take(bq));
        assert(t + Seq::<char>::empty() =~= t);
        assert(a + Seq::<char>::empty() =~= a);
    } else {
        assert(push_insert(ps, t) =~= ps + seq![Prim::Insert(t)]);
        lemma_apply_single(Prim::Insert(t), y.skip(bp));
        lemma_apply_concat(ps, seq![Prim::Insert(t)], y);
    }
}

/// The inverse consumes what the operation produces, and produces what it
/// consumed.
pub proof fn lemma_invert_lens(ps: Seq<Prim>, s: Seq<char>)
    requires
        s.len() >= base_len_of(ps),
    ensures
        base_len_of(invert_prims(ps, s)) == target_len_of(ps),
        target_len_of(invert_prims(ps, s)) == base_len_of(ps),
    decreases ps.len(),
{
    if ps.len() > 0 {
        let pre = ps.drop_last();
        lemma_invert_lens(pre, s);
        let inv = invert_prims(pre, s);
        match ps.last() {
            Prim::Retain(n) => lemma_push_retain_lens(inv, n),
            Prim::Insert(t) => lemma_push_delete_lens(inv, t.len()),
            Prim::Delete(n) => lemma_push_insert_lens(
                inv,
                take_upto(skip_upto(s, base_len_of(pre)), n),
            ),
        }
    }
}

/// The inverse reads the text only up to the base length.
proof fn lemma_invert_prefix(ps: Seq<Prim>, s: Seq<char>, k: int)
    requires
        base_len_of(ps) <= k <= s.len(),
    ensures
        invert_prims(ps, s) == invert_prims(ps, s.take(k)),
    decreases ps.len(),
{
    if ps.len() > 0 {
        let pre = ps.drop_last();
        lemma_invert_prefix(pre, s, k);
        let bq = base_len_of(pre);
        match ps.last() {
            Prim::Delete(n) => {
                assert(take_upto(skip_upto(s, bq), n) =~= take_upto(skip_upto(s.take(k), bq), n));
            },
            _ => {},
        }
    }
}

/// The inverse of an operation on a text undoes it:
/// `apply(invert(o, s), apply(o, s)) == s` for every `s` of its base length.
pub proof fn lemma_invert_undoes(ps: Seq<Prim>, s: Seq<char>)
    requires
        s.len() == base_len_of(ps),
    ensures
        apply_prims(invert_prims(ps, s), apply_prims(ps, s)) == s,
    decreases ps.len(),
{
    if ps.len() == 0 {
        assert(s =~= Seq::<char>::empty());
    } else {
        let pre = ps.drop_last();
        let last = ps.last();
        let bp = base_len_of(pre) as int;
        let s1 = s.take(bp);
        let s2 = s.skip(bp);
        assert(ps =~= pre + seq![last]);
        lemma_apply_single(last, s2);
        lemma_apply_concat(pre, seq![last], s);
        let a1 = apply_prims(pre, s1);
        let a2 = apply_prims(seq![last], s2);
        let big_a = a1 + a2;
        lemma_invert_prefix(pre, s, bp);
        lemma_invert_undoes(pre, s1);
        lemma_invert_lens(pre, s);
        lemma_apply_len(pre, s1);
        let inv = invert_prims(pre, s);
        let tp = target_len_of(pre) as int;
        assert(big_a.take(tp) =~= a1);
        assert(big_a.skip(tp) =~= a2);
        assert(s1 + s2 =~= s);
        match last {
            Prim::Retain(n) => {
                lemma_push_retain_apply(inv, n, big_a);
            },
            Prim::Insert(t) => {
                lemma_push_delete_apply(inv, t.len(), big_a);
                assert(s2 =~= Seq::<char>::empty());
            },
            Prim::Delete(n) => {
                assert(take_upto(skip_upto(s, bp as nat), n) =~= s2);
                assert(big_a =~= a1);
                lemma_push_insert_apply(inv, s2, big_a);
            },
        }
    }
}

} // verus!
