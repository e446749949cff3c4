use vstd::prelude::*;
use vstd::string::StringExecFns;

use crate::model::{ChatMember, Message, MessageKind, SendMessage, Update, UpdateKind};

verus! {

/// The fixed part of the welcome text that follows the addressee.
pub open spec fn welcome_tail() -> Seq<char> {
    " e benvenuto/a nel gruppo italiano dedicato a Rust: linguaggio di programmazione di sistema a elevate prestazioni che previene errori di segmentazione e garantisce la sicurezza dei dati tra i thread.\n\nIn questo gruppo, potrai parlare di tutto l'ecosistema Rust e chiedere supporto o consigli!\n\nE ricorda: non \u{e8} il gruppo del gioco\u{2122}\nBuona permanenza \u{1F609}"@
}

/// How a new member is addressed: `@handle` when there is one, else the first name.
pub open spec fn addressee(m: ChatMember) -> Seq<char> {
    match m.username {
        Some(u) => seq!['@'] + u@,
        None => m.first_name@,
    }
}

/// The full greeting sent for one new member.
pub open spec fn greeting(m: ChatMember) -> Seq<char> {
    "Ciao "@ + addressee(m) + welcome_tail()
}

/// An outbound call as a pair of chat id and text.
pub open spec fn send_view(s: SendMessage) -> (i64, Seq<char>) {
    (s.chat_id, s.text@)
}

pub open spec fn sends_view(v: Seq<SendMessage>) -> Seq<(i64, Seq<char>)> {
    v.map_values(|s: SendMessage| send_view(s))
}

/// The calls owed for one group of joining members in one chat, in join order.
pub open spec fn greetings_to(chat_id: i64, members: Seq<ChatMember>) -> Seq<(i64, Seq<char>)> {
    members.map_values(|m: ChatMember| (chat_id, greeting(m)))
}

/// Whether a message reports members joining its chat.
pub open spec fn is_new_members(m: Message) -> bool {
    m.kind is NewChatMembers
}

/// Whether an update carries a message that reports members joining.
pub open spec fn carries_new_members(u: Update) -> bool {
    &&& u.kind is Message
    &&& is_new_members(u.kind->Message_0)
}

/// The calls a message is owed by the welcome action.
pub open spec fn message_sends(m: Message) -> Seq<(i64, Seq<char>)> {
    match m.kind {
        MessageKind::NewChatMembers(ms) => greetings_to(m.chat_id, ms@),
        _ => Seq::empty(),
    }
}

/// The calls an update is owed by the pipeline: only the message route acts.
pub open spec fn update_sends(u: Update) -> Seq<(i64, Seq<char>)> {
    match u.kind {
        UpdateKind::Message(m) => message_sends(m),
        _ => Seq::empty(),
    }
}

fn welcome_tail_text() -> (r: &'static str)
    ensures
        r@ == welcome_tail(),
{
    " e benvenuto/a nel gruppo italiano dedicato a Rust: linguaggio di programmazione di sistema a elevate prestazioni che previene errori di segmentazione e garantisce la sicurezza dei dati tra i thread.\n\nIn questo gruppo, potrai parlare di tutto l'ecosistema Rust e chiedere supporto o consigli!\n\nE ricorda: non \u{e8} il gruppo del gioco\u{2122}\nBuona permanenza \u{1F609}"
}

/// The greeting for one new member.
pub fn greeting_for(member: &ChatMember) -> (r: String)
    ensures
        r@ == greeting(*member),
{
    let mut text = <String as StringExecFns>::from_str("Ciao ");
    match &member.username {
        Some(u) => {
            text.append("@");
            text.append(u.as_str());
        },
        None => {
            text.append(member.first_name.as_str());
        },
    }
    text.append(welcome_tail_text());
    proof {
        reveal_strlit("@");
        assert(text@ =~= greeting(*member));
    }
    text
}

/// The welcome action for one chat: one greeting per member, in join order.
pub fn greet_members(chat_id: i64, members: &Vec<ChatMember>) -> (r: Vec<SendMessage>)
    ensures
        sends_view(r@) == greetings_to(chat_id, members@),
{
    let mut out: Vec<SendMessage> = Vec::new();
    let mut i: usize = 0;
    while i < members.len()
        invariant
            i <= members@.len(),
            out@.len() == i,
            sends_view(out@) == greetings_to(chat_id, members@.take(i as int)),
        decreases members@.len() - i,
    {
        let ghost prev = out@;
        let text = greeting_for(&members[i]);
        out.push(SendMessage { chat_id, text });
        proof {
            assert(members@.take(i as int + 1) =~= members@.take(i as int).push(members@[i as int]));
            assert forall|j: int| 0 <= j < i + 1 implies #[trigger] sends_view(out@)[j]
                == greetings_to(chat_id, members@.take(i as int + 1))[j] by {
                if j < i {
                    assert(out@[j] == prev[j]);
                    assert(sends_view(prev)[j] == greetings_to(chat_id, members@.take(i as int))[j]);
                }
            }
            assert(sends_view(out@) =~= greetings_to(chat_id, members@.take(i as int + 1)));
        }
        i = i + 1;
    }
    proof {
        assert(members@.take(i as int) =~= members@);
    }
    out
}

/// First stage of the pipeline: narrows an update to the message it carries, if it is a
/// (non-edited) message.
pub fn filter_message(update: &Update) -> (r: Option<&Message>)
    ensures
        r is Some <==> update.kind is Message,
        r is Some ==> *r->Some_0 == update.kind->Message_0,
{
    match &update.kind {
        UpdateKind::Message(m) => Some(m),
        _ => None,
    }
}

/// The message route: greets joining members; any other message is left alone.
pub fn handle_message(message: &Message) -> (r: Vec<SendMessage>)
    ensures
        sends_view(r@) == message_sends(*message),
{
    match &message.kind {
        MessageKind::NewChatMembers(members) => greet_members(message.chat_id, members),
        _ => {
            let r: Vec<SendMessage> = Vec::new();
            proof {
                assert(sends_view(r@) =~= Seq::empty());
            }
            r
        },
    }
}

/// The calls one pass of the pipeline makes for an update, in order. An update that no route
/// matches is dropped: it yields no call.
pub fn plan_update(update: &Update) -> (r: Vec<SendMessage>)
    ensures
        sends_view(r@) == update_sends(*update),
{
    match filter_message(update) {
        Some(m) => handle_message(m),
        None => {
            let r: Vec<SendMessage> = Vec::new();
            proof {
                assert(sends_view(r@) =~= Seq::empty());
            }
            r
        },
    }
}

/// Only an update that carries a join event makes outbound calls; every other makes none.
pub proof fn lemma_only_joins_send(u: Update)
    ensures
        !carries_new_members(u) ==> update_sends(u).len() == 0,
        update_sends(u).len() > 0 ==> carries_new_members(u),
{
}

/// A join event with N members makes exactly N calls, each to the chat of the event, the i-th
/// greeting the i-th member.
pub proof fn lemma_one_call_per_member(u: Update)
    requires
        carries_new_members(u),
    ensures
        ({
            let m = u.kind->Message_0;
            let ms = m.kind->NewChatMembers_0@;
            &&& update_sends(u).len() == ms.len()
            &&& forall|i: int| 0 <= i < ms.len() ==> (#[trigger] update_sends(u)[i]).0 == m.chat_id
            &&& forall|i: int| 0 <= i < ms.len() ==> (#[trigger] update_sends(u)[i]).1 == greeting(ms[i])
        }),
{
}

/// The calls owed to a sequence of updates, pass after pass.
pub open spec fn batch_sends(us: Seq<Update>) -> Seq<(i64, Seq<char>)>
    decreases us.len(),
{
    if us.len() == 0 {
        Seq::empty()
    } else {
        batch_sends(us.drop_last()) + update_sends(us.last())
    }
}

/// Over any sequence of updates, the calls made are exactly those owed to the updates that carry
/// a join event: a sequence in which none does makes no call at all.
pub proof fn lemma_batch_only_joins_send(us: Seq<Update>)
    ensures
        (forall|i: int| 0 <= i < us.len() ==> !carries_new_members(#[trigger] us[i]))
            ==> batch_sends(us).len() == 0,
        batch_sends(us).len() == 0 <==> (forall|i: int|
            0 <= i < us.len() ==> #[trigger] update_sends(us[i]).len() == 0),
    decreases us.len(),
{
    if us.len() > 0 {
        lemma_batch_only_joins_send(us.drop_last());
        lemma_only_joins_send(us.last());
        assert forall|i: int| 0 <= i < us.len() - 1 implies #[trigger] us.drop_last()[i] == us[i] by {}
        if forall|i: int| 0 <= i < us.len() ==> #[trigger] update_sends(us[i]).len() == 0 {
            assert(update_sends(us[us.len() - 1]).len() == 0);
            assert forall|i: int| 0 <= i < us.drop_last().len() implies #[trigger] update_sends(
                us.drop_last()[i],
            ).len() == 0 by {
                assert(update_sends(us[i]).len() == 0);
            }
        }
        if batch_sends(us).len() == 0 {
            assert(batch_sends(us.drop_last()).len() == 0);
            assert forall|i: int| 0 <= i < us.len() implies #[trigger] update_sends(us[i]).len()
                == 0 by {
                if i < us.len() - 1 {
                    assert(us.drop_last()[i] == us[i]);
                }
            }
        }
        if forall|i: int| 0 <= i < us.len() ==> !carries_new_members(#[trigger] us[i]) {
            assert(!carries_new_members(us[us.len() - 1]));
            assert forall|i: int| 0 <= i < us.drop_last().len() implies !carries_new_members(
                #[trigger] us.drop_last()[i],
            ) by {
                assert(!carries_new_members(us[i]));
            }
        }
    }
}

} // verus!
