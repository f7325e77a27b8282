//! The console adapter's rules: which input lines become events, what event a line
//! becomes, and how an outbound message reads on the console.
use vstd::prelude::*;

use crate::event::Event;
use crate::model::{ChannelRef, EventEnvelope, MessageEvent, MessageSegment, UserRef};
use crate::plugin::Capability;
use crate::text::{trim_spec, trim_string};

verus! {

/// Where a segment's text starts: after a space when something precedes it.
pub open spec fn spaced(acc: Seq<char>) -> Seq<char> {
    if acc.len() > 0 {
        acc.push(' ')
    } else {
        acc
    }
}

/// What a segment adds to the console rendering `acc`: text as it is, a mention as `@id`,
/// an image as `[image:url]`, an attachment as `[attachment:name]` (`unnamed` without a
/// name), anything else as `[kind]`; all but text after a space when something precedes.
pub open spec fn console_step(acc: Seq<char>, seg: MessageSegment) -> Seq<char> {
    match seg {
        MessageSegment::Text { text } => acc + text@,
        MessageSegment::Mention { user_id } => spaced(acc).push('@') + user_id@,
        MessageSegment::Image { url } => spaced(acc) + "[image:"@ + url@ + "]"@,
        MessageSegment::Attachment { name, .. } => spaced(acc) + "[attachment:"@ + (match name {
            Some(n) => n@,
            None => "unnamed"@,
        }) + "]"@,
        MessageSegment::Unknown { kind, .. } => spaced(acc).push('[') + kind@ + "]"@,
    }
}

/// How a message's segments read on the console.
pub open spec fn console_render(segs: Seq<MessageSegment>) -> Seq<char>
    decreases segs.len(),
{
    if segs.len() == 0 {
        Seq::empty()
    } else {
        console_step(console_render(segs.drop_last()), segs.last())
    }
}

fn push_space_if_needed(out: &mut String)
    ensures
        final(out)@ == spaced(old(out)@),
{
    if !out.as_str().is_empty() {
        out.push(' ');
    }
}

/// How `segments` read on the console.
pub fn render_console(segments: &Vec<MessageSegment>) -> (r: String)
    ensures
        r@ == console_render(segments@),
{
    let mut out = String::new();
    let mut i: usize = 0;
    while i < segments.len()
        invariant
            i <= segments@.len(),
            out@ == console_render(segments@.take(i as int)),
        decreases segments.len() - i,
    {
        proof {
            let t = segments@.take(i as int + 1);
            assert(t.drop_last() =~= segments@.take(i as int));
            assert(t.last() == segments@[i as int]);
        }
        match &segments[i] {
            MessageSegment::Text { text } => {
                out.push_str(text.as_str());
            },
            MessageSegment::Mention { user_id } => {
                push_space_if_needed(&mut out);
                out.push('@');
                out.push_str(user_id.as_str());
            },
            MessageSegment::Image { url } => {
                push_space_if_needed(&mut out);
                out.push_str("[image:");
                out.push_str(url.as_str());
                out.push_str("]");
            },
            MessageSegment::Attachment { name, .. } => {
                push_space_if_needed(&mut out);
                out.push_str("[attachment:");
                match name {
                    Some(n) => out.push_str(n.as_str()),
                    None => out.push_str("unnamed"),
                }
                out.push_str("]");
            },
            MessageSegment::Unknown { kind, .. } => {
                push_space_if_needed(&mut out);
                out.push('[');
                out.push_str(kind.as_str());
                out.push_str("]");
            },
        }
        i = i + 1;
    }
    assert(segments@.take(segments@.len() as int) =~= segments@);
    out
}

/// A line typed on the console becomes an event unless it is blank.
pub fn console_line(raw: &str) -> (r: Option<String>)
    ensures
        r is None <==> trim_spec(raw@).len() == 0,
        r matches Some(line) ==> line@ == raw@,
{
    let text = trim_string(raw);
    if text.as_str().is_empty() {
        None
    } else {
        Some(raw.to_string())
    }
}

/// The event for a console line: from `console-user` in a direct chat on the `console`
/// platform of the `console` bot, with the line's trimmed text.
pub fn console_envelope(line: &str) -> (r: EventEnvelope)
    ensures
        r.bot_id.spec_str() == "console"@,
        r.platform.spec_str() == "console"@,
        r.message matches Some(m) && m.sender.spec_platform() == "console"@
            && m.sender.spec_user_id() == "console-user"@ && m.channel.spec_platform()
            == "console"@ && m.channel.spec_channel_id() == "console-user"@
            && m.channel.spec_kind() == crate::model::ChannelKind::Direct && m.text@ == trim_spec(
            line@,
        ),
{
    let user = UserRef::new("console", "console-user");
    let channel = ChannelRef::direct("console", "console-user");
    let text = trim_string(line);
    let message = MessageEvent::new(user, channel, text.as_str());
    EventEnvelope::new("console", "console").with_message(message)
}

/// The event the line-based console adapter makes of `raw`.
pub fn console_event(raw: &str) -> (r: Event)
    ensures
        r.name@ == "console.message"@,
        r.platform@ == "console"@,
        r.user_id.deep_view() == Some("console_user"@),
        r.group_id is None,
        r.message.deep_view() == Some(raw@),
        r.raw@ == raw@,
{
    Event::new("console.message", "console").user_id("console_user").message(raw).raw(raw)
}

/// What the console offers plugins: sending on its own, and the `console` capability.
pub fn console_capabilities() -> (r: Vec<Capability>)
    ensures
        r@.len() == 2,
        r@[0] == Capability::ProactiveSend,
        r@[1] matches Capability::Custom(name) && name@ == "console"@,
{
    let mut caps = Vec::new();
    caps.push(Capability::ProactiveSend);
    caps.push(Capability::custom("console"));
    caps
}

} // verus!
