//! What a handler reads of the event it handles, and the reply it sends back.
use vstd::prelude::*;

use crate::model::{ChannelKind, EventEnvelope, OutboundMessage};
use crate::text::owned;

verus! {

/// The text of the event's message; empty when the event carries none.
pub fn event_text(envelope: &EventEnvelope) -> (r: &str)
    ensures
        r@ == match envelope.message {
            Some(m) => m.text@,
            None => Seq::<char>::empty(),
        },
{
    proof {
        reveal_strlit("");
    }
    match envelope.message() {
        Some(m) => m.text.as_str(),
        None => "",
    }
}

/// Who sent the event's message; empty when the event carries none.
pub fn event_user_id(envelope: &EventEnvelope) -> (r: &str)
    ensures
        r@ == match envelope.message {
            Some(m) => m.sender.spec_user_id(),
            None => Seq::<char>::empty(),
        },
{
    proof {
        reveal_strlit("");
    }
    match envelope.message() {
        Some(m) => m.sender.user_id(),
        None => "",
    }
}

/// The group the event's message was sent in: the channel, when it is a group.
pub fn event_group_id(envelope: &EventEnvelope) -> (r: Option<&str>)
    ensures
        r is Some <==> (envelope.message matches Some(m) && m.channel.spec_kind()
            == ChannelKind::Group),
        r matches Some(g) ==> (envelope.message matches Some(m) && g@
            == m.channel.spec_channel_id()),
{
    match envelope.message() {
        Some(m) => match m.channel.kind() {
            ChannelKind::Group => Some(m.channel.channel_id()),
            ChannelKind::Direct | ChannelKind::Channel => None,
        },
        None => None,
    }
}

/// The reply `text` to the event's message, sent to the channel it came from; refused when
/// the event carries no message.
pub fn reply_message(envelope: &EventEnvelope, text: &str) -> (r: Result<OutboundMessage, String>)
    ensures
        r is Ok <==> envelope.message is Some,
        r matches Ok(out) ==> (envelope.message matches Some(m) && out.target.spec_platform()
            == m.channel.spec_platform() && out.target.spec_channel_id()
            == m.channel.spec_channel_id() && out.target.spec_kind() == m.channel.spec_kind()
            && out.segments@.len() == 1 && (out.segments@[0] matches crate::model::MessageSegment::Text {
            text: t,
        } && t@ == text@)),
        r matches Err(msg) ==> msg@ == "current event does not carry a message context"@,
{
    match envelope.message() {
        Some(m) => Ok(OutboundMessage::text(m.channel.copy(), text)),
        None => Err(owned("current event does not carry a message context")),
    }
}

/// The refusal when a reply is asked of an adapter that cannot send on its own.
pub fn no_sender_message() -> (r: String)
    ensures
        r@ == "adapter does not provide proactive message sending"@,
{
    owned("adapter does not provide proactive message sending")
}

} // verus!
