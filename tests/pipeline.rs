use rust_ita_bot::dispatch::{DispatchOutcome, Pass, PassStep, SendError};
use rust_ita_bot::model::{ChatMember, Message, MessageKind, Update, UpdateKind};
use rust_ita_bot::pipeline::{filter_message, greeting_for, handle_message, plan_update};

fn member(username: Option<&str>, first_name: &str) -> ChatMember {
    ChatMember::new(username.map(|u| u.to_string()), first_name.to_string())
}

fn joins(id: i32, chat_id: i64, members: Vec<ChatMember>) -> Update {
    Update::new(
        id,
        UpdateKind::Message(Message::new(chat_id, MessageKind::NewChatMembers(members))),
    )
}

#[test]
fn greeting_addresses_handle() {
    let text = greeting_for(&member(Some("alice"), "Alice"));
    assert!(text.starts_with("Ciao @alice e benvenuto/a nel gruppo italiano dedicato a Rust"));
    assert!(!text.contains("Alice"));
}

#[test]
fn greeting_addresses_first_name_without_handle() {
    let text = greeting_for(&member(None, "Bob"));
    assert!(text.starts_with("Ciao Bob e benvenuto/a"));
    assert!(!text.contains('@'));
    assert!(text.ends_with("Buona permanenza \u{1F609}"));
}

#[test]
fn greeting_full_text() {
    let text = greeting_for(&member(None, "Bob"));
    let expected = "Ciao Bob e benvenuto/a nel gruppo italiano dedicato a Rust: linguaggio di \
                    programmazione di sistema a elevate prestazioni che previene errori di \
                    segmentazione e garantisce la sicurezza dei dati tra i thread.\n\n\
                    In questo gruppo, potrai parlare di tutto l'ecosistema Rust e chiedere \
                    supporto o consigli!\n\n\
                    E ricorda: non è il gruppo del gioco™\n\
                    Buona permanenza 😉";
    assert_eq!(text, expected);
}

#[test]
fn one_call_per_member_in_join_order() {
    let update = joins(
        1,
        -1001,
        vec![member(Some("alice"), "Alice"), member(None, "Bob"), member(Some("carol"), "C")],
    );
    let calls = plan_update(&update);
    assert_eq!(calls.len(), 3);
    assert!(calls.iter().all(|c| c.chat_id == -1001));
    assert!(calls[0].text.starts_with("Ciao @alice "));
    assert!(calls[1].text.starts_with("Ciao Bob "));
    assert!(calls[2].text.starts_with("Ciao @carol "));
}

#[test]
fn join_without_members_makes_no_call() {
    assert!(plan_update(&joins(1, 5, vec![])).is_empty());
}

#[test]
fn other_updates_make_no_call() {
    let text = Update::new(2, UpdateKind::Message(Message::new(5, MessageKind::Text("hi".to_string()))));
    let other = Update::new(3, UpdateKind::Message(Message::new(5, MessageKind::Other)));
    let edited = Update::new(
        4,
        UpdateKind::EditedMessage(Message::new(5, MessageKind::NewChatMembers(vec![member(None, "Bob")]))),
    );
    let unknown = Update::new(5, UpdateKind::Other);
    for u in [text, other, edited, unknown] {
        assert!(plan_update(&u).is_empty());
    }
}

#[test]
fn filter_keeps_only_messages() {
    let m = Update::new(1, UpdateKind::Message(Message::new(9, MessageKind::Other)));
    assert_eq!(filter_message(&m).map(|m| m.chat_id), Some(9));
    let e = Update::new(2, UpdateKind::EditedMessage(Message::new(9, MessageKind::Other)));
    assert!(filter_message(&e).is_none());
}

#[test]
fn handle_message_greets_joins() {
    let m = Message::new(7, MessageKind::NewChatMembers(vec![member(None, "Dan")]));
    let calls = handle_message(&m);
    assert_eq!(calls.len(), 1);
    assert_eq!(calls[0].chat_id, 7);
}

#[test]
fn pass_sends_every_call_then_succeeds() {
    let mut pass = Pass::new(&joins(1, 3, vec![member(None, "A"), member(None, "B")]));
    let mut sent = Vec::new();
    loop {
        match pass.next_step() {
            PassStep::Send(i) => {
                sent.push(pass.calls[i].text.clone());
                pass.record(Ok(()));
            }
            PassStep::Finished => break,
        }
    }
    assert_eq!(sent.len(), 2);
    assert!(matches!(pass.outcome(), DispatchOutcome::Handled));
}

#[test]
fn pass_stops_at_first_failure() {
    let mut pass = Pass::new(&joins(1, 3, vec![member(None, "A"), member(None, "B")]));
    assert!(matches!(pass.next_step(), PassStep::Send(0)));
    pass.record(Err(SendError { description: "network down".to_string() }));
    assert!(matches!(pass.next_step(), PassStep::Finished));
    match pass.outcome() {
        DispatchOutcome::Failed(e) => assert_eq!(e.description, "network down"),
        DispatchOutcome::Handled => panic!("a failed call must fail the pass"),
    }
}

#[test]
fn pass_without_calls_is_finished_at_once() {
    let pass = Pass::new(&Update::new(1, UpdateKind::Other));
    assert!(matches!(pass.next_step(), PassStep::Finished));
    assert!(matches!(pass.outcome(), DispatchOutcome::Handled));
}
