use operational_transform::{Operation, OperationSeq};
use rustpad::lifecycle::{expired_keys, is_expired, HOUR_MS};
use rustpad::opseq::OpSeq;
use rustpad::protocol::{ClientMsg, Reaction, ServerMsg};
use rustpad::session::{CursorData, EditError, PersistedDocument, State, UserInfo, RESTORED_ID};

fn insert(s: &str) -> OperationSeq {
    let mut o = OpSeq::new();
    o.insert(s);
    o.0
}

fn edit(revision: usize, operation: OperationSeq) -> ClientMsg {
    ClientMsg::Edit { revision, operation }
}

fn history(state: &State, seen: usize) -> (usize, Vec<(u64, Vec<Operation>)>) {
    match state.history_after(seen) {
        (Some(ServerMsg::History { start, operations }), _) => (
            start,
            operations
                .iter()
                .map(|u| (u.id, u.operation.ops().to_vec()))
                .collect(),
        ),
        _ => panic!("expected a history message"),
    }
}

#[test]
fn test_single_operation() {
    let mut state = State::new();
    let r = state.handle_message(0, edit(0, insert("hello")));
    assert!(matches!(r, Ok(Reaction::Notify)));
    let (start, ops) = history(&state, 0);
    assert_eq!(start, 0);
    assert_eq!(ops, vec![(0, vec![Operation::Insert("hello".to_string())])]);
    assert_eq!(state.text(), "hello");
    assert_eq!(state.revision(), 1);
}

#[test]
fn test_invalid_operation() {
    let mut state = State::new();
    let r = state.handle_message(0, edit(1, insert("hello")));
    assert!(matches!(r, Err(EditError::FutureRevision)));
    assert_eq!(state.revision(), 0);
    assert_eq!(state.text(), "");
}

#[test]
fn test_concurrent_transform() {
    let mut state = State::new();
    assert!(state.apply_edit(0, 0, insert("hello")).is_ok());
    let mut o = OpSeq::new();
    o.retain(2);
    o.insert("n");
    o.delete(1);
    o.retain(2);
    assert!(state.apply_edit(0, 1, o.0).is_ok());
    assert_eq!(state.text(), "henlo");
    assert!(state.apply_edit(1, 0, insert("~rust~")).is_ok());
    let (start, ops) = history(&state, 2);
    assert_eq!(start, 2);
    assert_eq!(
        ops,
        vec![(1, vec![Operation::Insert("~rust~".to_string()), Operation::Retain(5)])]
    );
    assert_eq!(state.text(), "~rust~henlo");
    assert!(state.history_after(3).0.is_none());
    assert_eq!(state.history_after(3).1, 3);
}

#[test]
fn test_unicode_length() {
    let mut state = State::new();
    assert!(state.apply_edit(0, 0, insert("h🎉e🎉l👨\u{200d}👨\u{200d}👦\u{200d}👦lo")).is_ok());
    let mut d = OpSeq::new();
    d.delete(14);
    assert!(state.apply_edit(0, 1, d.0).is_ok());
    assert_eq!(state.text(), "");
    assert_eq!(state.revision(), 2);
}

#[test]
fn test_multiple_operations() {
    let dance = "\u{1f46f}\u{200d}\u{2642}\u{fe0f}";
    let zalgo = "h\u{337}\u{30f}\u{34a}\u{311}\u{30d}\u{306}\u{303}\u{309}\u{35d}\u{319}\u{324}e\u{336}\u{306}\u{30c}\u{313}\u{303}\u{343}\u{33d}\u{31a}\u{303}\u{320}l\u{338}\u{35d}\u{30a}\u{343}\u{343}\u{360}\u{325}l\u{338}\u{360}\u{320}\u{323}\u{31f}\u{325}\u{328}o\u{334}\u{309}\u{30f}\u{313}\u{341}\u{31a}\u{35d}\u{357}\u{33d}\u{340}\u{344}\u{315}\u{35d}\u{35b}\u{350}\u{333}\u{316}\u{32a}\u{31f}\u{331}\u{330}\u{325}\u{31e}\u{319} \u{336}\u{340}\u{34d}\u{359}\u{35a}\u{31e}\u{359}\u{323}\u{318}\u{359}\u{321}\u{32f}\u{347}\u{319}\u{320}w\u{337}\u{30b}\u{30b}\u{33f}\u{33f}\u{300}\u{33e}\u{358}\u{35b}\u{358}\u{315}\u{310}\u{35d}\u{30f}\u{32a}\u{328}\u{35a}\u{324}\u{359}\u{356}\u{31d}\u{355}\u{31c}\u{32d}\u{328}\u{32f}\u{31d}o\u{334}\u{30c}\u{360}\u{312}\u{344}\u{312}\u{319}\u{349}\u{348}\u{317}\u{316}\u{34d}\u{318}\u{325}\u{324}r\u{336}\u{302}\u{340}\u{328}\u{326}\u{354}\u{319}\u{32e}\u{326}\u{356}\u{354}\u{329}\u{321}\u{322}\u{348}\u{317}\u{316}l\u{336}\u{35d}\u{340}\u{35b}\u{30c}\u{344}\u{344}\u{360}\u{351}\u{34b}\u{308}\u{30d}\u{307}\u{34a}\u{35a}\u{32c}\u{324}\u{355}\u{321}\u{322}\u{31c}d\u{335}\u{35d}\u{315}\u{31b}\u{31b}\u{360}\u{35d}\u{30c}\u{30a}\u{30f}\u{344}\u{30e}\u{34a}\u{310}\u{30f}\u{34a}\u{32f}\u{355}\u{32d}\u{35c}\u{329}\u{356}\u{31d}\u{319}\u{34e}";
    let mut state = State::new();
    assert!(state.apply_edit(0, 0, insert("🎉😍𒀇👨\u{200d}👨\u{200d}👦\u{200d}👦")).is_ok());
    let (start, ops) = history(&state, 0);
    assert_eq!(start, 0);
    assert_eq!(ops, vec![(0, vec![Operation::Insert("🎉😍𒀇👨\u{200d}👨\u{200d}👦\u{200d}👦".to_string())])]);
    let mut a = OpSeq::new();
    a.insert(dance);
    a.retain(3);
    a.insert("𐅣𐅤𐅥");
    a.retain(7);
    assert!(state.apply_edit(0, 1, a.0).is_ok());
    let (start, ops) = history(&state, 1);
    assert_eq!(start, 1);
    assert_eq!(
        ops,
        vec![(
            0,
            vec![
                Operation::Insert(dance.to_string()),
                Operation::Retain(3),
                Operation::Insert("𐅣𐅤𐅥".to_string()),
                Operation::Retain(7),
            ]
        )]
    );
    assert_eq!(state.text(), format!("{}🎉😍𒀇𐅣𐅤𐅥👨\u{200d}👨\u{200d}👦\u{200d}👦", dance));
    let mut b = OpSeq::new();
    b.retain(2);
    b.insert(zalgo);
    b.retain(8);
    // made at revision 1, rebased over the edit above
    assert!(state.apply_edit(0, 1, b.0).is_ok());
    let (start, ops) = history(&state, 2);
    assert_eq!(start, 2);
    assert_eq!(
        ops,
        vec![(0, vec![Operation::Retain(6), Operation::Insert(zalgo.to_string()), Operation::Retain(11)])]
    );
    assert_eq!(
        state.text(),
        format!("{}🎉😍{}𒀇𐅣𐅤𐅥👨\u{200d}👨\u{200d}👦\u{200d}👦", dance, zalgo)
    );
}

#[test]
fn test_unicode_cursors() {
    let mut state = State::new();
    assert!(state.apply_edit(0, 0, insert("🎉🎉🎉")).is_ok());
    let data = CursorData { cursors: vec![0, 1, 2, 3], selections: vec![(0, 1), (2, 3)] };
    assert!(state.handle_message(0, ClientMsg::CursorData(data)).is_ok());
    assert!(state.apply_edit(1, 0, insert("🎉")).is_ok());
    assert_eq!(state.text(), "🎉🎉🎉🎉");
    let (messages, revision) = state.initial_messages();
    assert_eq!(revision, 2);
    let cursor = messages
        .iter()
        .find_map(|m| match m {
            ServerMsg::UserCursor { id, data } => Some((*id, data.clone())),
            _ => None,
        })
        .unwrap();
    assert_eq!(cursor.0, 0);
    assert_eq!(cursor.1.cursors, vec![1, 2, 3, 4]);
    assert_eq!(cursor.1.selections, vec![(1, 2), (3, 4)]);
}

#[test]
fn test_set_language() {
    let mut state = State::new();
    let r = state.handle_message(0, ClientMsg::SetLanguage("javascript".to_string()));
    assert!(matches!(r, Ok(Reaction::Broadcast(ServerMsg::Language(ref l))) if l == "javascript"));
    let r = state.handle_message(1, ClientMsg::SetLanguage("python".to_string()));
    assert!(matches!(r, Ok(Reaction::Broadcast(ServerMsg::Language(ref l))) if l == "python"));
    assert_eq!(state.language, Some("python".to_string()));
    let (messages, _) = state.initial_messages();
    assert_eq!(messages.len(), 1);
    assert!(matches!(&messages[0], ServerMsg::Language(l) if l == "python"));
}

#[test]
fn test_two_users() {
    let mut state = State::new();
    let alice = UserInfo { name: "Alice".to_string(), hue: 42 };
    let r = state.handle_message(0, ClientMsg::ClientInfo(alice));
    assert!(matches!(
        r,
        Ok(Reaction::Broadcast(ServerMsg::UserInfo { id: 0, info: Some(ref i) })) if i.name == "Alice" && i.hue == 42
    ));
    let bob = UserInfo { name: "Bob".to_string(), hue: 96 };
    assert!(state.handle_message(1, ClientMsg::ClientInfo(bob)).is_ok());
    let (messages, revision) = state.initial_messages();
    assert_eq!(revision, 0);
    assert_eq!(messages.len(), 2);
    assert!(matches!(&messages[0], ServerMsg::UserInfo { id: 0, info: Some(i) } if i.name == "Alice"));
    assert!(matches!(&messages[1], ServerMsg::UserInfo { id: 1, info: Some(i) } if i.name == "Bob" && i.hue == 96));
    // a second message replaces the first
    let alice2 = UserInfo { name: "Alice".to_string(), hue: 7 };
    assert!(state.handle_message(0, ClientMsg::ClientInfo(alice2)).is_ok());
    assert_eq!(state.users.len(), 2);
    assert_eq!(state.users[0].1.hue, 7);
}

#[test]
fn test_leave_rejoin() {
    let mut state = State::new();
    let alice = UserInfo { name: "Alice".to_string(), hue: 42 };
    assert!(state.handle_message(0, ClientMsg::ClientInfo(alice)).is_ok());
    let data = CursorData { cursors: vec![1], selections: vec![] };
    assert!(state.handle_message(0, ClientMsg::CursorData(data)).is_ok());
    let tombstone = state.leave(0);
    assert!(matches!(tombstone, ServerMsg::UserInfo { id: 0, info: None }));
    assert!(state.users.is_empty());
    assert!(state.cursors.is_empty());
    let bob = UserInfo { name: "Bob".to_string(), hue: 96 };
    assert!(state.handle_message(1, ClientMsg::ClientInfo(bob)).is_ok());
    let (messages, _) = state.initial_messages();
    assert_eq!(messages.len(), 1);
    assert!(matches!(&messages[0], ServerMsg::UserInfo { id: 1, info: Some(i) } if i.name == "Bob"));
}

#[test]
fn test_cursors() {
    let mut state = State::new();
    let data = CursorData { cursors: vec![4, 6, 7], selections: vec![(5, 10), (3, 4)] };
    let r = state.handle_message(0, ClientMsg::CursorData(data));
    assert!(matches!(
        r,
        Ok(Reaction::Broadcast(ServerMsg::UserCursor { id: 0, ref data }))
            if data.cursors == vec![4, 6, 7] && data.selections == vec![(5, 10), (3, 4)]
    ));
    let (messages, _) = state.initial_messages();
    assert_eq!(messages.len(), 1);
    assert!(matches!(&messages[0], ServerMsg::UserCursor { id: 0, data } if data.cursors == vec![4, 6, 7]));
    let data2 = CursorData { cursors: vec![10], selections: vec![] };
    let r = state.handle_message(1, ClientMsg::CursorData(data2));
    assert!(matches!(r, Ok(Reaction::Broadcast(ServerMsg::UserCursor { id: 1, ref data })) if data.cursors == vec![10]));
    // client 0 leaves, client 1 inserts "a" at the start
    state.leave(0);
    assert!(matches!(state.handle_message(1, edit(0, insert("a"))), Ok(Reaction::Notify)));
    let (messages, revision) = state.initial_messages();
    assert_eq!(revision, 1);
    assert_eq!(messages.len(), 2);
    assert!(matches!(&messages[1], ServerMsg::UserCursor { id: 1, data } if data.cursors == vec![11] && data.selections.is_empty()));
}

#[test]
fn cursors_move_with_edits() {
    let mut state = State::new();
    assert!(state.apply_edit(0, 0, insert("hello world")).is_ok());
    let data = CursorData { cursors: vec![0, 5, 11], selections: vec![(6, 11)] };
    assert!(state.handle_message(1, ClientMsg::CursorData(data)).is_ok());
    let mut o = OpSeq::new();
    o.delete(6);
    o.retain(5);
    o.insert("!");
    assert!(state.apply_edit(0, 1, o.0).is_ok());
    assert_eq!(state.text(), "world!");
    assert_eq!(state.cursors[0].1.cursors, vec![0, 0, 6]);
    assert_eq!(state.cursors[0].1.selections, vec![(0, 6)]);
}

#[test]
fn test_large_document() {
    let mut state = State::new();
    assert!(state.apply_edit(0, 0, insert(&"a".repeat(5000))).is_ok());
    assert!(matches!(
        state.apply_edit(0, 0, insert(&"a".repeat(500000))),
        Err(EditError::TooLarge)
    ));
    assert_eq!(state.revision(), 1);
    assert_eq!(state.text().len(), 5000);
}

#[test]
fn size_ceiling_is_inclusive() {
    let mut state = State::new();
    assert!(matches!(state.apply_edit(0, 0, insert(&"a".repeat(100_001))), Err(EditError::TooLarge)));
    assert_eq!(state.revision(), 0);
    assert!(state.apply_edit(0, 0, insert(&"a".repeat(100_000))).is_ok());
}

#[test]
fn edit_with_wrong_base_length_is_refused() {
    let mut state = State::new();
    assert!(state.apply_edit(0, 0, insert("abc")).is_ok());
    let mut o = OpSeq::new();
    o.retain(5);
    // made at revision 0, where the text was empty
    assert!(matches!(state.apply_edit(0, 0, o.0), Err(EditError::Transform)));
    let mut o = OpSeq::new();
    o.retain(5);
    // made at the current revision, but the text has three code points
    assert!(matches!(state.apply_edit(0, 1, o.0), Err(EditError::Apply)));
    assert_eq!(state.text(), "abc");
    assert_eq!(state.revision(), 1);
}

#[test]
fn restored_document_replays_its_text() {
    let doc = PersistedDocument { text: "print('World Text :)')".to_string(), language: Some("python".to_string()) };
    let mut state = State::from_persisted(doc.clone());
    assert_eq!(state.revision(), 1);
    assert_eq!(state.operations[0].id, RESTORED_ID);
    assert_eq!(state.snapshot(), doc);
    let (messages, revision) = state.initial_messages();
    assert_eq!(revision, 1);
    assert!(matches!(&messages[0], ServerMsg::History { start: 0, operations } if operations.len() == 1));
    assert!(matches!(&messages[1], ServerMsg::Language(l) if l == "python"));
    let mut o = OpSeq::new();
    o.retain(22);
    o.insert("!");
    assert!(state.apply_edit(3, 1, o.0).is_ok());
    assert_eq!(state.snapshot().text, "print('World Text :)')!");
    let empty = State::with_text(String::new(), None);
    assert_eq!(empty.revision(), 1);
    assert_eq!(empty.text(), "");
}

#[test]
fn test_cleanup() {
    assert!(!is_expired(23 * HOUR_MS, 1));
    assert!(!is_expired(24 * HOUR_MS, 1));
    assert!(is_expired(24 * HOUR_MS + 1, 1));
    assert!(is_expired(26 * HOUR_MS, 1));
    assert!(!is_expired(47 * HOUR_MS, 2));
    let entries = vec![
        ("old".to_string(), 26 * HOUR_MS),
        ("new".to_string(), 23 * HOUR_MS),
        ("older".to_string(), 100 * HOUR_MS),
    ];
    assert_eq!(expired_keys(&entries, 1), vec!["old".to_string(), "older".to_string()]);
    assert_eq!(expired_keys(&entries, 5), Vec::<String>::new());
}
