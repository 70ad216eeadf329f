//! The state of one document: its revision log, text, language, users and
//! cursors, and the rules by which edits and presence updates change it.

use crate::algebra::{lemma_apply_len, lemma_push_insert_lens};
use crate::ot::{
    lengths_fit, lens_fit, apply_prims, base_len_of, char_count, prim_base, push_insert, seq_apply, seq_base_len,
    seq_insert, seq_new, seq_prims, seq_target_len, seq_transform, target_len_of,
    transform_index, transform_index_spec, transformed, Prim,
};
use operational_transform::OperationSeq;
use vstd::prelude::*;

verus! {

/// Largest length, in code points, that a document may reach by an edit.
pub const MAX_TEXT_LEN: usize = 100000;

/// An operation in the log, with the client that sent it.
#[derive(Clone, Debug)]
pub struct UserOperation {
    pub id: u64,
    pub operation: OperationSeq,
}

/// What a client tells about itself.
#[derive(Clone, Debug)]
pub struct UserInfo {
    pub name: String,
    pub hue: u32,
}

/// A client's cursor positions and selections, in code points.
#[derive(Clone, Debug)]
pub struct CursorData {
    pub cursors: Vec<u32>,
    pub selections: Vec<(u32, u32)>,
}

/// Why an edit was refused.
#[derive(Clone, Copy, Debug, PartialEq, Eq, Structural)]
pub enum EditError {
    /// The edit names a revision later than the current one.
    FutureRevision,
    /// The edit could not be transformed against the history since its
    /// revision: its base length does not fit, or its lengths (or those of a
    /// step) do not fit in `usize`.
    Transform,
    /// The edit would leave a document longer than `MAX_TEXT_LEN`.
    TooLarge,
    /// The rebased edit does not apply to the current text.
    Apply,
}

/// The text that replaying `log` from the empty text gives.
pub open spec fn replay(log: Seq<UserOperation>) -> Seq<char>
    decreases log.len(),
{
    if log.len() == 0 {
        Seq::empty()
    } else {
        apply_prims(seq_prims(log.last().operation), replay(log.drop_last()))
    }
}

/// Each operation of `log` applies to the text that the ones before it give.
pub open spec fn log_consistent(log: Seq<UserOperation>) -> bool {
    forall|k: int|
        0 <= k < log.len() ==> base_len_of(seq_prims(#[trigger] log[k].operation)) == replay(
            log.take(k),
        ).len()
}

/// No key occurs twice.
pub open spec fn unique_keys<T>(s: Seq<(u64, T)>) -> bool {
    forall|i: int, j: int| 0 <= i < j < s.len() ==> s[i].0 != s[j].0
}

/// Some entry has key `k`.
pub open spec fn has_key<T>(s: Seq<(u64, T)>, k: u64) -> bool {
    exists|j: int| 0 <= j < s.len() && s[j].0 == k
}

/// Every operation of `log` has lengths that fit in `usize`.
pub open spec fn log_fits(log: Seq<UserOperation>) -> bool {
    forall|k: int| 0 <= k < log.len() ==> lens_fit(seq_prims(#[trigger] log[k].operation))
}

/// The sum of the target lengths of the operations of `hist`.
pub open spec fn targets_sum(hist: Seq<UserOperation>) -> nat
    decreases hist.len(),
{
    if hist.len() == 0 {
        0
    } else {
        target_len_of(seq_prims(hist[0].operation)) + targets_sum(hist.skip(1))
    }
}

/// `p` transformed in turn against each operation of `hist`, or `None` where
/// its lengths or those of a step do not fit in `usize`, or a base length
/// does not fit the history.
pub open spec fn rebase(p: Seq<Prim>, hist: Seq<UserOperation>) -> Option<Seq<Prim>>
    decreases hist.len(),
{
    if !lens_fit(p) {
        None
    } else if hist.len() == 0 {
        Some(p)
    } else {
        let h = seq_prims(hist[0].operation);
        if base_len_of(p) != base_len_of(h) || target_len_of(p) + target_len_of(h) > usize::MAX {
            None
        } else {
            rebase(transformed(p, h).0, hist.skip(1))
        }
    }
}

/// In a well-formed state the text is the replay of the log: the first
/// operation applied to the empty text, the next to its result, and so on to
/// the last, each to a text of its base length.
pub proof fn lemma_text_is_replay(s: State)
    requires
        s.wf(),
    ensures
        s.text@ == replay(s.operations@),
        forall|k: int|
            0 <= k < s.operations@.len() ==> base_len_of(seq_prims(#[trigger] s.operations@[k].operation))
                == replay(s.operations@.take(k)).len(),
{
}

/// What an edit made at `revision` with primitives `p` becomes on a document
/// with log `log` and text `text`: the rebased operation, or the error.
pub open spec fn edit_result(log: Seq<UserOperation>, text: Seq<char>, revision: int, p: Seq<Prim>) -> Result<Seq<Prim>, EditError> {
    if revision > log.len() {
        Err(EditError::FutureRevision)
    } else {
        match rebase(p, log.skip(revision)) {
            None => Err(EditError::Transform),
            Some(q) => if target_len_of(q) > MAX_TEXT_LEN {
                Err(EditError::TooLarge)
            } else if base_len_of(q) != text.len() {
                Err(EditError::Apply)
            } else {
                Ok(q)
            },
        }
    }
}

/// Each position of `new` is the position of `old` moved across `q`.
pub open spec fn cursors_moved(old: CursorData, new: CursorData, q: Seq<Prim>) -> bool {
    &&& new.cursors@.len() == old.cursors@.len()
    &&& new.selections@.len() == old.selections@.len()
    &&& forall|i: int|
        0 <= i < old.cursors@.len() ==> #[trigger] new.cursors@[i] == transform_index_spec(
            q,
            old.cursors@[i],
        )
    &&& forall|i: int|
        0 <= i < old.selections@.len() ==> (#[trigger] new.selections@[i]).0
            == transform_index_spec(q, old.selections@[i].0) && new.selections@[i].1
            == transform_index_spec(q, old.selections@[i].1)
}

/// Every stored cursor of `new` is the one of `old` with the same client,
/// moved across `q`.
pub open spec fn all_cursors_moved(old: Seq<(u64, CursorData)>, new: Seq<(u64, CursorData)>, q: Seq<Prim>) -> bool {
    &&& new.len() == old.len()
    &&& forall|k: int|
        0 <= k < old.len() ==> (#[trigger] new[k]).0 == old[k].0 && cursors_moved(
            old[k].1,
            new[k].1,
            q,
        )
}

/// The positions of `data`, each moved across `op`.
fn move_cursor_data(op: &OperationSeq, data: &CursorData) -> (r: CursorData)
    ensures
        cursors_moved(*data, r, seq_prims(*op)),
{
    let mut cursors: Vec<u32> = Vec::new();
    let mut i: usize = 0;
    while i < data.cursors.len()
        invariant
            0 <= i <= data.cursors.len(),
            cursors@.len() == i,
            forall|j: int|
                0 <= j < i ==> #[trigger] cursors@[j] == transform_index_spec(
                    seq_prims(*op),
                    data.cursors@[j],
                ),
        decreases data.cursors.len() - i,
    {
        cursors.push(transform_index(op, data.cursors[i]));
        i += 1;
    }
    let mut selections: Vec<(u32, u32)> = Vec::new();
    let mut i: usize = 0;
    while i < data.selections.len()
        invariant
            0 <= i <= data.selections.len(),
            selections@.len() == i,
            forall|j: int|
                0 <= j < i ==> (#[trigger] selections@[j]).0 == transform_index_spec(
                    seq_prims(*op),
                    data.selections@[j].0,
                ) && selections@[j].1 == transform_index_spec(
                    seq_prims(*op),
                    data.selections@[j].1,
                ),
        decreases data.selections.len() - i,
    {
        let (start, end) = data.selections[i];
        selections.push((transform_index(op, start), transform_index(op, end)));
        i += 1;
    }
    CursorData { cursors, selections }
}

/// `operation`, made at `revision`, transformed in turn against each later
/// operation of `log`. An operation made on the text at its revision, whose
/// lengths leave room for the history, always comes through, made on the
/// current text.
fn rebase_onto(log: &Vec<UserOperation>, revision: usize, operation: OperationSeq) -> (r: Option<OperationSeq>)
    requires
        revision <= log@.len(),
        log_fits(log@),
        log_consistent(log@),
    ensures
        match rebase(seq_prims(operation), log@.skip(revision as int)) {
            None => r is None,
            Some(q) => r is Some && seq_prims(r->Some_0) == q,
        },
        r is Some ==> lens_fit(seq_prims(r->Some_0)),
        lens_fit(seq_prims(operation)) && base_len_of(seq_prims(operation)) == replay(
            log@.take(revision as int),
        ).len() && target_len_of(seq_prims(operation)) + targets_sum(log@.skip(revision as int))
            <= usize::MAX ==> r is Some && base_len_of(seq_prims(r->Some_0)) == replay(log@).len(),
{
    let ghost p0 = seq_prims(operation);
    let ghost good = lens_fit(p0) && base_len_of(p0) == replay(log@.take(revision as int)).len()
        && target_len_of(p0) + targets_sum(log@.skip(revision as int)) <= usize::MAX;
    if !lengths_fit(&operation) {
        return None;
    }
    let mut op = operation;
    let mut k: usize = revision;
    proof {
        assert(log@.skip(revision as int).skip(0) =~= log@.skip(revision as int));
    }
    while k < log.len()
        invariant
            revision <= k <= log@.len(),
            log_fits(log@),
            log_consistent(log@),
            p0 == seq_prims(operation),
            lens_fit(seq_prims(op)),
            rebase(p0, log@.skip(revision as int)) == rebase(seq_prims(op), log@.skip(k as int)),
            good == (lens_fit(p0) && base_len_of(p0) == replay(log@.take(revision as int)).len()
                && target_len_of(p0) + targets_sum(log@.skip(revision as int)) <= usize::MAX),
            good ==> base_len_of(seq_prims(op)) == replay(log@.take(k as int)).len()
                && target_len_of(seq_prims(op)) + targets_sum(log@.skip(k as int)) <= usize::MAX,
        decreases log@.len() - k,
    {
        let ghost hp = seq_prims(log@[k as int].operation);
        proof {
            assert(log@.skip(k as int).skip(1) =~= log@.skip(k as int + 1));
            assert(log@.skip(k as int)[0] == log@[k as int]);
            assert(lens_fit(hp));
            assert(log@.take(k as int + 1).drop_last() =~= log@.take(k as int));
            assert(log@.take(k as int + 1).last() == log@[k as int]);
            assert(base_len_of(hp) == replay(log@.take(k as int)).len());
            lemma_apply_len(hp, replay(log@.take(k as int)));
            assert(targets_sum(log@.skip(k as int)) == target_len_of(hp) + targets_sum(
                log@.skip(k as int + 1),
            ));
        }
        let h = &log[k].operation;
        if seq_base_len(&op) != seq_base_len(h) {
            return None;
        }
        let t1 = seq_target_len(&op);
        let t2 = seq_target_len(h);
        if t1 > usize::MAX - t2 {
            return None;
        }
        match seq_transform(&op, h) {
            Some((a, _)) => {
                if !lengths_fit(&a) {
                    return None;
                }
                op = a;
            },
            None => {
                return None;
            },
        }
        k += 1;
    }
    proof {
        assert(log@.skip(k as int).len() == 0);
        assert(log@.take(k as int) =~= log@);
    }
    Some(op)
}

/// Moves every stored cursor across `op`.
fn move_all_cursors(cursors: &mut Vec<(u64, CursorData)>, op: &OperationSeq)
    ensures
        all_cursors_moved(old(cursors)@, final(cursors)@, seq_prims(*op)),
        unique_keys(old(cursors)@) ==> unique_keys(final(cursors)@),
{
    let ghost old_cursors = cursors@;
    let mut j: usize = 0;
    while j < cursors.len()
        invariant
            cursors@.len() == old_cursors.len(),
            0 <= j <= old_cursors.len(),
            forall|i: int| j <= i < old_cursors.len() ==> #[trigger] cursors@[i] == old_cursors[i],
            forall|i: int|
                0 <= i < j ==> (#[trigger] cursors@[i]).0 == old_cursors[i].0
                    && cursors_moved(old_cursors[i].1, cursors@[i].1, seq_prims(*op)),
        decreases old_cursors.len() - j,
    {
        let moved = move_cursor_data(op, &cursors[j].1);
        let key = cursors[j].0;
        cursors.set(j, (key, moved));
        j += 1;
    }
    proof {
        if unique_keys(old_cursors) {
            assert forall|a: int, b: int| 0 <= a < b < cursors@.len() implies cursors@[a].0 != cursors@[b].0 by {
                assert(cursors@[a].0 == old_cursors[a].0);
                assert(cursors@[b].0 == old_cursors[b].0);
            }
        }
    }
}

/// Sets the value of key `k`: replaces the entry with that key, or appends
/// one.
fn upsert<T>(v: &mut Vec<(u64, T)>, k: u64, val: T)
    requires
        unique_keys(old(v)@),
    ensures
        unique_keys(final(v)@),
        entry_set(old(v)@, final(v)@, k, val),
{
    let mut j: usize = 0;
    while j < v.len()
        invariant
            v@ == old(v)@,
            unique_keys(v@),
            0 <= j <= v@.len(),
            forall|i: int| 0 <= i < j ==> (#[trigger] v@[i]).0 != k,
        decreases v@.len() - j,
    {
        if v[j].0 == k {
            let ghost before = v@;
            v.set(j, (k, val));
            proof {
                assert(v@ == before.update(j as int, (k, val)));
                assert forall|a: int, b: int| 0 <= a < b < v@.len() implies v@[a].0 != v@[b].0 by {
                    assert(v@[a].0 == before[a].0);
                    assert(v@[b].0 == before[b].0);
                }
            }
            return;
        }
        j += 1;
    }
    v.push((k, val));
}

/// Removes the entry with key `k`, if there is one.
fn remove_key<T>(v: &mut Vec<(u64, T)>, k: u64)
    requires
        unique_keys(old(v)@),
    ensures
        unique_keys(final(v)@),
        entry_removed(old(v)@, final(v)@, k),
{
    let mut j: usize = 0;
    while j < v.len()
        invariant
            v@ == old(v)@,
            unique_keys(v@),
            0 <= j <= v@.len(),
            forall|i: int| 0 <= i < j ==> (#[trigger] v@[i]).0 != k,
        decreases v@.len() - j,
    {
        if v[j].0 == k {
            let ghost before = v@;
            v.remove(j);
            proof {
                assert(before.remove(j as int) == v@);
                assert(before[j as int].0 == k);
                assert forall|a: int, b: int| 0 <= a < b < v@.len() implies v@[a].0 != v@[b].0 by {
                    let a2 = if a < j { a } else { a + 1 };
                    let b2 = if b < j { b } else { b + 1 };
                    assert(v@[a] == before[a2]);
                    assert(v@[b] == before[b2]);
                }
                assert forall|i: int| 0 <= i < v@.len() implies v@[i].0 != k by {
                    let i2 = if i < j { i } else { i + 1 };
                    assert(v@[i] == before[i2]);
                }
            }
            return;
        }
        j += 1;
    }
}

/// A copy of `u`.
pub fn copy_user_info(u: &UserInfo) -> (r: UserInfo)
    ensures
        r == *u,
{
    UserInfo { name: u.name.clone(), hue: u.hue }
}

/// A copy of `d`.
pub fn copy_cursor_data(d: &CursorData) -> (r: CursorData)
    ensures
        r.cursors@ == d.cursors@,
        r.selections@ == d.selections@,
{
    let mut cursors: Vec<u32> = Vec::new();
    let mut i: usize = 0;
    while i < d.cursors.len()
        invariant
            0 <= i <= d.cursors@.len(),
            cursors@ == d.cursors@.take(i as int),
        decreases d.cursors@.len() - i,
    {
        cursors.push(d.cursors[i]);
        i += 1;
        proof {
            assert(cursors@ =~= d.cursors@.take(i as int));
        }
    }
    let mut selections: Vec<(u32, u32)> = Vec::new();
    let mut i: usize = 0;
    while i < d.selections.len()
        invariant
            0 <= i <= d.selections@.len(),
            selections@ == d.selections@.take(i as int),
        decreases d.selections@.len() - i,
    {
        selections.push(d.selections[i]);
        i += 1;
        proof {
            assert(selections@ =~= d.selections@.take(i as int));
        }
    }
    proof {
        assert(cursors@ =~= d.cursors@);
        assert(selections@ =~= d.selections@);
    }
    CursorData { cursors, selections }
}

/// A persisted document: its text and language, without the log.
#[derive(Clone, Debug, PartialEq, Eq)]
pub struct PersistedDocument {
    /// Text content of the document.
    pub text: String,
    /// Language of the document, for syntax highlighting.
    pub language: Option<String>,
}

/// The id that marks the operation a document is rebuilt from.
pub const RESTORED_ID: u64 = 0xffff_ffff_ffff_ffff;

/// `new` is `old` after the rebased edit `q` of client `id` was accepted:
/// the log grew by it, the text is `q` applied to the old text, and every
/// stored cursor moved across `q`.
pub open spec fn edit_applied(old: State, new: State, id: u64, q: Seq<Prim>) -> bool {
    &&& new.operations@ == old.operations@.push(new.operations@.last())
    &&& new.operations@.last().id == id
    &&& seq_prims(new.operations@.last().operation) == q
    &&& new.text@ == apply_prims(q, old.text@)
    &&& new.language == old.language
    &&& new.users == old.users
    &&& all_cursors_moved(old.cursors@, new.cursors@, q)
}

/// `new` is `old` with the entry of key `k` set to `val`: replaced where the
/// key was present, appended where it was not.
pub open spec fn entry_set<T>(old: Seq<(u64, T)>, new: Seq<(u64, T)>, k: u64, val: T) -> bool {
    &&& has_key(old, k) ==> exists|j: int|
        0 <= j < old.len() && old[j].0 == k && new == old.update(j, (k, val))
    &&& !has_key(old, k) ==> new == old.push((k, val))
}

/// `new` is `old` without the entry of key `k`, if it had one.
pub open spec fn entry_removed<T>(old: Seq<(u64, T)>, new: Seq<(u64, T)>, k: u64) -> bool {
    &&& !has_key(new, k)
    &&& has_key(old, k) ==> exists|j: int| 0 <= j < old.len() && old[j].0 == k && new == old.remove(j)
    &&& !has_key(old, k) ==> new == old
}

/// The shared state of one document.
pub struct State {
    /// The log of accepted operations; its length is the revision.
    pub operations: Vec<UserOperation>,
    /// The current text.
    pub text: String,
    /// The editor language, last writer wins.
    pub language: Option<String>,
    /// Information of each connected client that sent some.
    pub users: Vec<(u64, UserInfo)>,
    /// Cursors of each connected client that sent some.
    pub cursors: Vec<(u64, CursorData)>,
}

impl State {
    /// The text is the replay of the log, every logged operation fits the
    /// text before it and has lengths that fit in `usize`, and no client has
    /// two entries.
    pub open spec fn wf(&self) -> bool {
        &&& self.text@ == replay(self.operations@)
        &&& log_consistent(self.operations@)
        &&& log_fits(self.operations@)
        &&& unique_keys(self.users@)
        &&& unique_keys(self.cursors@)
    }

    /// An empty document.
    pub fn new() -> (r: State)
        ensures
            r.wf(),
            r.operations@.len() == 0,
            r.text@.len() == 0,
            r.language is None,
            r.users@.len() == 0,
            r.cursors@.len() == 0,
    {
        State {
            operations: Vec::new(),
            text: String::new(),
            language: None,
            users: Vec::new(),
            cursors: Vec::new(),
        }
    }

    /// A document whose log is one insert of `text`, as after a reload from
    /// storage.
    pub fn with_text(text: String, language: Option<String>) -> (r: State)
        ensures
            r.wf(),
            r.text == text,
            r.language == language,
            r.operations@.len() == 1,
            r.operations@[0].id == RESTORED_ID,
            seq_prims(r.operations@[0].operation) == push_insert(Seq::empty(), text@),
            r.users@.len() == 0,
            r.cursors@.len() == 0,
    {
        let n = char_count(text.as_str());
        let mut operation = seq_new();
        seq_insert(&mut operation, text.as_str());
        let ghost p = seq_prims(operation);
        proof {
            if text@.len() > 0 {
                assert(p =~= seq![Prim::Insert(text@)]);
                assert(p.skip(1) =~= Seq::<Prim>::empty());
                assert(p.drop_last() =~= Seq::<Prim>::empty());
                assert(text@ + Seq::<char>::empty() =~= text@);
                assert(p[0] == Prim::Insert(text@));
                assert(apply_prims(p.skip(1), Seq::empty()) == Seq::<char>::empty());
                assert(apply_prims(p, Seq::empty()) == text@);
                assert(base_len_of(p.drop_last()) == 0);
                assert(prim_base(p.last()) == 0);
                assert(base_len_of(p) == 0);
            } else {
                assert(text@ =~= Seq::<char>::empty());
            }
        }
        let mut operations: Vec<UserOperation> = Vec::new();
        operations.push(UserOperation { id: RESTORED_ID, operation });
        proof {
            assert(operations@.drop_last() =~= Seq::<UserOperation>::empty());
            assert(operations@.take(0) =~= Seq::<UserOperation>::empty());
            assert(seq_prims(operations@.last().operation) == p);
            assert(replay(operations@.drop_last()) == Seq::<char>::empty());
            assert(replay(operations@) == apply_prims(p, Seq::empty()));
            lemma_push_insert_lens(Seq::empty(), text@);
            assert(base_len_of(Seq::<Prim>::empty()) == 0);
            assert(target_len_of(Seq::<Prim>::empty()) == 0);
            assert(lens_fit(seq_prims(operations@[0].operation)));
        }
        State { operations, text, language, users: Vec::new(), cursors: Vec::new() }
    }

    /// A state restored from a persisted document.
    pub fn from_persisted(document: PersistedDocument) -> (r: State)
        ensures
            r.wf(),
            r.text == document.text,
            r.language == document.language,
            r.operations@.len() == 1,
            seq_prims(r.operations@[0].operation) == push_insert(Seq::empty(), document.text@),
    {
        State::with_text(document.text, document.language)
    }

    /// The current text.
    pub fn text(&self) -> (r: String)
        ensures
            r == self.text,
    {
        self.text.clone()
    }

    /// The current revision: the length of the log.
    pub fn revision(&self) -> (r: usize)
        ensures
            r == self.operations@.len(),
    {
        self.operations.len()
    }

    /// The text and language, as they are persisted.
    pub fn snapshot(&self) -> (r: PersistedDocument)
        ensures
            r.text == self.text,
            r.language == self.language,
    {
        let language = match &self.language {
            Some(l) => Some(l.clone()),
            None => None,
        };
        PersistedDocument { text: self.text.clone(), language }
    }

    /// Sets the language; the last writer wins.
    pub fn set_language(&mut self, language: String)
        requires
            old(self).wf(),
        ensures
            final(self).wf(),
            final(self).language == Some(language),
            final(self).operations == old(self).operations,
            final(self).text == old(self).text,
            final(self).users == old(self).users,
            final(self).cursors == old(self).cursors,
    {
        self.language = Some(language);
    }

    /// Records the information of client `id`.
    pub fn set_user_info(&mut self, id: u64, info: UserInfo)
        requires
            old(self).wf(),
        ensures
            final(self).wf(),
            entry_set(old(self).users@, final(self).users@, id, info),
            final(self).operations == old(self).operations,
            final(self).text == old(self).text,
            final(self).language == old(self).language,
            final(self).cursors == old(self).cursors,
    {
        upsert(&mut self.users, id, info);
    }

    /// Records the cursors of client `id`.
    pub fn set_cursor_data(&mut self, id: u64, data: CursorData)
        requires
            old(self).wf(),
        ensures
            final(self).wf(),
            entry_set(old(self).cursors@, final(self).cursors@, id, data),
            final(self).operations == old(self).operations,
            final(self).text == old(self).text,
            final(self).language == old(self).language,
            final(self).users == old(self).users,
    {
        upsert(&mut self.cursors, id, data);
    }

    /// Forgets the information and cursors of client `id`, which left.
    pub fn remove_user(&mut self, id: u64)
        requires
            old(self).wf(),
        ensures
            final(self).wf(),
            entry_removed(old(self).users@, final(self).users@, id),
            entry_removed(old(self).cursors@, final(self).cursors@, id),
            final(self).operations == old(self).operations,
            final(self).text == old(self).text,
            final(self).language == old(self).language,
    {
        remove_key(&mut self.users, id);
        remove_key(&mut self.cursors, id);
    }

    /// Rebases an edit made by client `id` at `revision` onto the current
    /// log, applies it, moves every stored cursor across it and logs it.
    /// On error nothing changes. An edit made on the text at its revision,
    /// with lengths that leave room for the history in `usize`, is accepted
    /// unless it makes the document too large.
    pub fn apply_edit(&mut self, id: u64, revision: usize, operation: OperationSeq) -> (r: Result<(), EditError>)
        requires
            old(self).wf(),
        ensures
            final(self).wf(),
            revision <= old(self).operations@.len() && lens_fit(seq_prims(operation))
                && base_len_of(seq_prims(operation)) == replay(
                old(self).operations@.take(revision as int),
            ).len() && target_len_of(seq_prims(operation)) + targets_sum(
                old(self).operations@.skip(revision as int),
            ) <= usize::MAX ==> (r is Ok || r == Err::<(), EditError>(EditError::TooLarge)),
            match edit_result(old(self).operations@, old(self).text@, revision as int, seq_prims(operation)) {
                Err(e) => r == Err::<(), EditError>(e) && *final(self) == *old(self),
                Ok(q) => r is Ok && edit_applied(*old(self), *final(self), id, q),
            },
    {
        if revision > self.operations.len() {
            return Err(EditError::FutureRevision);
        }
        let ghost log = self.operations@;
        let op = match rebase_onto(&self.operations, revision, operation) {
            Some(op) => op,
            None => {
                return Err(EditError::Transform);
            },
        };
        if seq_target_len(&op) > MAX_TEXT_LEN {
            return Err(EditError::TooLarge);
        }
        let new_text = match seq_apply(&op, self.text.as_str()) {
            Some(t) => t,
            None => {
                return Err(EditError::Apply);
            },
        };
        move_all_cursors(&mut self.cursors, &op);
        self.operations.push(UserOperation { id, operation: op });
        self.text = new_text;
        proof {
            let nl = self.operations@;
            assert(nl.drop_last() =~= log);
            assert forall|i: int| 0 <= i < nl.len() implies lens_fit(seq_prims(#[trigger] nl[i].operation)) by {
                if i < log.len() {
                    assert(nl[i] == log[i]);
                }
            }
            assert forall|i: int| 0 <= i < nl.len() implies base_len_of(seq_prims(#[trigger] nl[i].operation)) == replay(nl.take(i)).len() by {
                if i < log.len() {
                    assert(nl.take(i) =~= log.take(i));
                } else {
                    assert(nl.take(i) =~= log);
                }
            }
        }
        Ok(())
    }
}

} // verus!
