//! The worker: pulls one decoded event callback at a time from the dispatch
//! queue, filters, and constructs the outbound reply.

use vstd::prelude::*;
use vstd::string::*;
use crate::model::EventCallback;
use crate::model::EventCallbackV;
use crate::model::InternalEvent;
use crate::model::InternalEventV;
use crate::model::PostMessage;
use crate::model::PostMessageV;
use crate::queue::DispatchQueue;
use crate::codec::spec_post_message_to;
use crate::codec::str_eq;
use crate::codec::post_message_to_json;
use crate::json::print_json;
use crate::json::to_text;

verus! {

/// The reply every qualifying message receives.
pub open spec fn reply_text() -> Seq<char> {
    "hello, world"@
}

/// The worker's decision for one event callback: a message with no subtype,
/// from a known user other than the bot itself, in a known channel, is
/// answered in that channel; everything else is skipped. A qualifying
/// message without a channel is a local failure, skipped as well.
pub open spec fn spec_decide(cb: EventCallbackV, bot_id: Seq<char>) -> Option<PostMessageV> {
    match cb.event {
        InternalEventV::Message(m) => if m.subtype is None && m.user is Some && m.user->0 != bot_id
            && m.channel is Some {
            Some(PostMessageV { channel: m.channel->0, text: reply_text() })
        } else {
            None
        },
    }
}

/// Decides whether `cb` gets a reply, and constructs it.
pub fn decide_reply(cb: &EventCallback, bot_id: &str) -> (r: Option<PostMessage>)
    ensures
        match r {
            Some(pm) => spec_decide(cb@, bot_id@) == Some(pm@),
            None => spec_decide(cb@, bot_id@) is None,
        },
{
    match &cb.event {
        InternalEvent::Message(m) => {
            if m.subtype.is_some() {
                return None;
            }
            let user = match &m.user {
                None => {
                    return None;
                },
                Some(u) => u,
            };
            if str_eq(user.as_str(), bot_id) {
                return None;
            }
            match &m.channel {
                None => None,
                Some(ch) => Some(
                    PostMessage { channel: ch.clone(), text: String::from_str("hello, world") },
                ),
            }
        },
    }
}

/// One turn of the worker's pull loop: takes the callback that has waited
/// longest, if any, and decides its reply. The caller performs the send; a
/// failed send is its business and never stops the loop.
pub fn worker_step(queue: &mut DispatchQueue, bot_id: &str) -> (r: Option<PostMessage>)
    ensures
        old(queue)@.len() == 0 ==> r is None && final(queue)@ == old(queue)@,
        old(queue)@.len() > 0 ==> final(queue)@ == old(queue)@.drop_first() && (match spec_decide(
            old(queue)@[0],
            bot_id@,
        ) {
            Some(pm) => r matches Some(p) && p@ == pm,
            None => r is None,
        }),
{
    match queue.pop() {
        None => None,
        Some(cb) => decide_reply(&cb, bot_id),
    }
}

/// The JSON body of the outbound call: `channel` and `text`, exactly.
pub fn post_message_body(pm: &PostMessage) -> (r: String)
    ensures
        r@ == print_json(spec_post_message_to(pm@)),
{
    let j = post_message_to_json(pm);
    to_text(&j)
}

/// Law: a message event with no subtype, from a known user other than the
/// bot, in a known channel, is answered exactly once, in that channel, with
/// the fixed reply text.
pub proof fn lemma_reply_when_qualifying(cb: EventCallbackV, bot_id: Seq<char>)
    requires
        cb.event matches InternalEventV::Message(m) && m.subtype is None && m.user is Some
            && m.user->0 != bot_id && m.channel is Some,
    ensures
        spec_decide(cb, bot_id) matches Some(pm) && pm.channel == cb.event->Message_0.channel->0
            && pm.text == reply_text(),
{
}

/// Law: a message from the bot itself, or one carrying any subtype, is
/// never answered.
pub proof fn lemma_no_reply_for_self_or_subtype(cb: EventCallbackV, bot_id: Seq<char>)
    requires
        cb.event matches InternalEventV::Message(m) && (m.user == Some(bot_id) || m.subtype
            is Some),
    ensures
        spec_decide(cb, bot_id) is None,
{
}

} // verus!
