//! Messages of the duplex session protocol, and the decisions of the
//! connection loop: what a new client is sent, which history a client has
//! yet to see, and what each client message does to the document.

use crate::ot::seq_prims;
use crate::session::{
    copy_cursor_data, copy_user_info, edit_applied, edit_result, entry_removed, entry_set,
    CursorData, EditError, State, UserInfo, UserOperation,
};
use operational_transform::OperationSeq;
use vstd::prelude::*;

verus! {

/// A message from a client.
#[derive(Clone, Debug)]
pub enum ClientMsg {
    /// Local edits of the user, made at `revision`.
    Edit { revision: usize, operation: OperationSeq },
    /// Sets the language of the editor.
    SetLanguage(String),
    /// Sets the user's information.
    ClientInfo(UserInfo),
    /// Sets the user's cursors and selections.
    CursorData(CursorData),
}

/// A message to clients.
#[derive(Clone, Debug)]
pub enum ServerMsg {
    /// The client's own id.
    Identity(u64),
    /// The operations of the log from revision `start` on.
    History { start: usize, operations: Vec<UserOperation> },
    /// The current language.
    Language(String),
    /// A user's information, or `None` when the user left.
    UserInfo { id: u64, info: Option<UserInfo> },
    /// A user's cursors.
    UserCursor { id: u64, data: CursorData },
}

/// What the connection loop does after a client message was handled.
#[derive(Clone, Debug)]
pub enum Reaction {
    /// The log grew: wake every client that waits for history.
    Notify,
    /// Send this message to every client of the document.
    Broadcast(ServerMsg),
}

/// `a` holds the operations of `b`: the same clients and primitives, in order.
pub open spec fn same_ops(a: Seq<UserOperation>, b: Seq<UserOperation>) -> bool {
    &&& a.len() == b.len()
    &&& forall|i: int|
        0 <= i < a.len() ==> (#[trigger] a[i]).id == b[i].id && seq_prims(a[i].operation)
            == seq_prims(b[i].operation)
}

/// `m` is a history message that starts at `start` and holds `ops`.
pub open spec fn is_history(m: ServerMsg, start: int, ops: Seq<UserOperation>) -> bool {
    match m {
        ServerMsg::History { start: s, operations } => s == start && same_ops(operations@, ops),
        _ => false,
    }
}

/// `m` tells the cursors `data` of client `id`.
pub open spec fn is_user_cursor(m: ServerMsg, id: u64, data: CursorData) -> bool {
    match m {
        ServerMsg::UserCursor { id: i, data: d } => i == id && d.cursors@ == data.cursors@
            && d.selections@ == data.selections@,
        _ => false,
    }
}

/// The operations of `log` from `start` on, copied.
fn copy_ops_from(log: &Vec<UserOperation>, start: usize) -> (r: Vec<UserOperation>)
    requires
        start <= log@.len(),
    ensures
        same_ops(r@, log@.skip(start as int)),
{
    let mut r: Vec<UserOperation> = Vec::new();
    let mut i: usize = start;
    while i < log.len()
        invariant
            start <= i <= log@.len(),
            r@.len() == i - start,
            forall|j: int|
                0 <= j < r@.len() ==> (#[trigger] r@[j]).id == log@[start + j].id && seq_prims(
                    r@[j].operation,
                ) == seq_prims(log@[start + j].operation),
        decreases log@.len() - i,
    {
        let u = &log[i];
        r.push(UserOperation { id: u.id, operation: u.operation.clone() });
        i += 1;
    }
    r
}

impl State {
    /// Where the language message stands among the initial messages.
    pub open spec fn language_offset(&self) -> int {
        if self.operations@.len() > 0 {
            1
        } else {
            0
        }
    }

    /// Where the user messages start among the initial messages.
    pub open spec fn info_offset(&self) -> int {
        self.language_offset() + if self.language is Some {
            1int
        } else {
            0int
        }
    }

    /// The history that a client which has seen `seen` operations has yet to
    /// receive, and the count it has seen afterwards. A client that saw a
    /// `History` with `start` and `k` operations is next sent one that starts
    /// at `start + k`.
    pub fn history_after(&self, seen: usize) -> (r: (Option<ServerMsg>, usize))
        ensures
            seen < self.operations@.len() ==> r.0 is Some && is_history(
                r.0->Some_0,
                seen as int,
                self.operations@.skip(seen as int),
            ) && r.1 == self.operations@.len(),
            seen >= self.operations@.len() ==> r.0 is None && r.1 == seen,
            r.0 is Some ==> r.1 == seen + (r.0->Some_0)->History_operations@.len(),
    {
        let len = self.operations.len();
        if seen < len {
            let operations = copy_ops_from(&self.operations, seen);
            (Some(ServerMsg::History { start: seen, operations }), len)
        } else {
            (None, seen)
        }
    }

    /// What a newly connected client is sent after its identity: the whole
    /// log if it is not empty, the language if one is set, then the
    /// information and the cursors of each user. Also returns the revision
    /// that those messages bring the client to.
    pub fn initial_messages(&self) -> (r: (Vec<ServerMsg>, usize))
        ensures
            r.1 == self.operations@.len(),
            r.0@.len() == self.info_offset() + self.users@.len() + self.cursors@.len(),
            self.operations@.len() > 0 ==> is_history(r.0@[0], 0, self.operations@),
            self.language is Some ==> r.0@[self.language_offset()] == ServerMsg::Language(
                self.language->Some_0,
            ),
            forall|j: int|
                self.info_offset() <= j < self.info_offset() + self.users@.len() ==> #[trigger] r.0@[j]
                    == (ServerMsg::UserInfo {
                    id: self.users@[j - self.info_offset()].0,
                    info: Some(self.users@[j - self.info_offset()].1),
                }),
            forall|j: int|
                self.info_offset() + self.users@.len() <= j < r.0@.len() ==> is_user_cursor(
                    #[trigger] r.0@[j],
                    self.cursors@[j - self.info_offset() - self.users@.len()].0,
                    self.cursors@[j - self.info_offset() - self.users@.len()].1,
                ),
    {
        let mut messages: Vec<ServerMsg> = Vec::new();
        if self.operations.len() > 0 {
            let operations = copy_ops_from(&self.operations, 0);
            proof {
                assert(self.operations@.skip(0) =~= self.operations@);
            }
            messages.push(ServerMsg::History { start: 0, operations });
        }
        match &self.language {
            Some(l) => {
                messages.push(ServerMsg::Language(l.clone()));
            },
            None => {},
        }
        let g = messages.len();
        let ghost m0 = messages@;
        assert(g == self.info_offset());
        assert(self.operations@.len() > 0 ==> is_history(m0[0], 0, self.operations@));
        assert(self.language is Some ==> m0[self.language_offset()] == ServerMsg::Language(
            self.language->Some_0,
        ));
        let mut i: usize = 0;
        while i < self.users.len()
            invariant
                0 <= i <= self.users@.len(),
                messages@.len() == g + i,
                messages@.take(g as int) == m0,
                forall|j: int|
                    0 <= j < i ==> #[trigger] messages@[g + j] == (ServerMsg::UserInfo {
                        id: self.users@[j].0,
                        info: Some(self.users@[j].1),
                    }),
            decreases self.users@.len() - i,
        {
            let (id, info) = &self.users[i];
            messages.push(ServerMsg::UserInfo { id: *id, info: Some(copy_user_info(info)) });
            proof {
                assert(messages@.take(g as int) =~= messages@.drop_last().take(g as int));
            }
            i += 1;
        }
        let gu = messages.len();
        let ghost m1 = messages@;
        let mut i: usize = 0;
        while i < self.cursors.len()
            invariant
                0 <= i <= self.cursors@.len(),
                messages@.len() == gu + i,
                messages@.take(gu as int) == m1,
                forall|j: int|
                    0 <= j < i ==> is_user_cursor(
                        #[trigger] messages@[gu + j],
                        self.cursors@[j].0,
                        self.cursors@[j].1,
                    ),
            decreases self.cursors@.len() - i,
        {
            let (id, data) = &self.cursors[i];
            messages.push(ServerMsg::UserCursor { id: *id, data: copy_cursor_data(data) });
            proof {
                assert(messages@.take(gu as int) =~= messages@.drop_last().take(gu as int));
            }
            i += 1;
        }
        proof {
            assert forall|j: int| 0 <= j < g implies messages@[j] == m0[j] by {
                assert(messages@.take(gu as int)[j] == m1[j]);
                assert(m1.take(g as int)[j] == m0[j]);
            }
            assert forall|j: int| g <= j < gu implies #[trigger] messages@[j] == (ServerMsg::UserInfo {
                id: self.users@[j - g].0,
                info: Some(self.users@[j - g].1),
            }) by {
                assert(messages@.take(gu as int)[j] == m1[j]);
                assert(m1[g + (j - g)] == (ServerMsg::UserInfo {
                    id: self.users@[j - g].0,
                    info: Some(self.users@[j - g].1),
                }));
            }
            assert forall|j: int| gu <= j < messages@.len() implies is_user_cursor(
                #[trigger] messages@[j],
                self.cursors@[j - gu].0,
                self.cursors@[j - gu].1,
            ) by {
                assert(messages@[gu + (j - gu)] == messages@[j]);
            }
        }
        proof {
            if self.operations@.len() > 0 {
                assert(messages@[0] == m0[0]);
            }
            if self.language is Some {
                assert(messages@[self.language_offset()] == m0[self.language_offset()]);
            }
        }
        (messages, self.operations.len())
    }

    /// Handles one message of client `id`: an edit is applied (and waiting
    /// clients are to be woken), the other messages are recorded and
    /// broadcast. A refused edit changes nothing.
    pub fn handle_message(&mut self, id: u64, msg: ClientMsg) -> (r: Result<Reaction, EditError>)
        requires
            old(self).wf(),
        ensures
            final(self).wf(),
            match msg {
                ClientMsg::Edit { revision, operation } => match edit_result(
                    old(self).operations@,
                    old(self).text@,
                    revision as int,
                    seq_prims(operation),
                ) {
                    Err(e) => r == Err::<Reaction, EditError>(e) && *final(self) == *old(self),
                    Ok(q) => r is Ok && r->Ok_0 is Notify && edit_applied(*old(self), *final(self), id, q),
                },
                ClientMsg::SetLanguage(language) => {
                    &&& r is Ok && r->Ok_0 == Reaction::Broadcast(ServerMsg::Language(language))
                    &&& final(self).language == Some(language)
                    &&& final(self).operations == old(self).operations
                    &&& final(self).text == old(self).text
                    &&& final(self).users == old(self).users
                    &&& final(self).cursors == old(self).cursors
                },
                ClientMsg::ClientInfo(info) => {
                    &&& r is Ok && r->Ok_0 == Reaction::Broadcast(ServerMsg::UserInfo { id, info: Some(info) })
                    &&& entry_set(old(self).users@, final(self).users@, id, info)
                    &&& final(self).operations == old(self).operations
                    &&& final(self).text == old(self).text
                    &&& final(self).language == old(self).language
                    &&& final(self).cursors == old(self).cursors
                },
                ClientMsg::CursorData(data) => {
                    &&& r is Ok && r->Ok_0 == Reaction::Broadcast(ServerMsg::UserCursor { id, data })
                    &&& exists|stored: CursorData|
                        stored.cursors@ == data.cursors@ && stored.selections@ == data.selections@
                            && entry_set(old(self).cursors@, final(self).cursors@, id, stored)
                    &&& final(self).operations == old(self).operations
                    &&& final(self).text == old(self).text
                    &&& final(self).language == old(self).language
                    &&& final(self).users == old(self).users
                },
            },
    {
        match msg {
            ClientMsg::Edit { revision, operation } => {
                match self.apply_edit(id, revision, operation) {
                    Ok(()) => Ok(Reaction::Notify),
                    Err(e) => Err(e),
                }
            },
            ClientMsg::SetLanguage(language) => {
                let l = language.clone();
                self.set_language(l);
                Ok(Reaction::Broadcast(ServerMsg::Language(language)))
            },
            ClientMsg::ClientInfo(info) => {
                self.set_user_info(id, copy_user_info(&info));
                Ok(Reaction::Broadcast(ServerMsg::UserInfo { id, info: Some(info) }))
            },
            ClientMsg::CursorData(data) => {
                let stored = copy_cursor_data(&data);
                self.set_cursor_data(id, stored);
                Ok(Reaction::Broadcast(ServerMsg::UserCursor { id, data }))
            },
        }
    }

    /// Forgets client `id`, which left, and returns the message that tells
    /// the other clients so.
    pub fn leave(&mut self, id: u64) -> (r: ServerMsg)
        requires
            old(self).wf(),
        ensures
            final(self).wf(),
            r == (ServerMsg::UserInfo { id, info: None }),
            entry_removed(old(self).users@, final(self).users@, id),
            entry_removed(old(self).cursors@, final(self).cursors@, id),
            final(self).operations == old(self).operations,
            final(self).text == old(self).text,
            final(self).language == old(self).language,
    {
        self.remove_user(id);
        ServerMsg::UserInfo { id, info: None }
    }
}

} // verus!
