//! Platform-neutral identifiers, messages and events.
use vstd::prelude::*;

use crate::text::{is_ws, trim_spec, trim_string};

verus! {

/// `serde_json::Value`, carried opaquely by segments that the library does not interpret.
#[verifier::external_type_specification]
#[verifier::external_body]
pub struct ExJsonValue(serde_json::Value);

/// `std::time::SystemTime`, carried opaquely as the receive time of an envelope.
#[verifier::external_type_specification]
#[verifier::external_body]
pub struct ExSystemTime(std::time::SystemTime);

/// `Clone` of a JSON value yields an equal value (a deep copy).
pub assume_specification[ <serde_json::Value as Clone>::clone ](v: &serde_json::Value) -> (r:
    serde_json::Value)
    ensures
        r == *v,
;

/// `Clone` of a `SystemTime` yields the same instant (the type is `Copy`).
pub assume_specification[ <std::time::SystemTime as Clone>::clone ](t: &std::time::SystemTime) -> (r:
    std::time::SystemTime)
    ensures
        r == *t,
;

/// Calls `std::time::SystemTime::now`; nothing is promised of the clock's value.
#[verifier::external_body]
fn system_time_now() -> std::time::SystemTime {
    std::time::SystemTime::now()
}

#[derive(Clone, Debug, PartialEq, Eq, Hash)]
pub struct BotId(String);

impl BotId {
    pub closed spec fn spec_str(&self) -> Seq<char> {
        self.0@
    }

    pub fn new(value: &str) -> (r: Self)
        ensures
            r.spec_str() == value@,
    {
        BotId(value.to_string())
    }

    pub fn as_str(&self) -> (r: &str)
        ensures
            r@ == self.spec_str(),
    {
        self.0.as_str()
    }
}

#[derive(Clone, Debug, PartialEq, Eq, Hash)]
pub struct PlatformId(String);

impl PlatformId {
    pub closed spec fn spec_str(&self) -> Seq<char> {
        self.0@
    }

    pub fn new(value: &str) -> (r: Self)
        ensures
            r.spec_str() == value@,
    {
        PlatformId(value.to_string())
    }

    pub fn as_str(&self) -> (r: &str)
        ensures
            r@ == self.spec_str(),
    {
        self.0.as_str()
    }
}

#[derive(Clone, Copy, Debug, PartialEq, Eq, Hash)]
pub enum ChannelKind {
    Direct,
    Group,
    Channel,
}

#[derive(Clone, Debug, PartialEq, Eq, Hash)]
pub struct ChannelRef {
    platform: PlatformId,
    channel_id: String,
    kind: ChannelKind,
}

impl ChannelRef {
    pub closed spec fn spec_platform(&self) -> Seq<char> {
        self.platform.spec_str()
    }

    pub closed spec fn spec_channel_id(&self) -> Seq<char> {
        self.channel_id@
    }

    pub closed spec fn spec_kind(&self) -> ChannelKind {
        self.kind
    }

    /// A copy of this channel reference.
    pub fn copy(&self) -> (r: Self)
        ensures
            r.spec_platform() == self.spec_platform(),
            r.spec_channel_id() == self.spec_channel_id(),
            r.spec_kind() == self.spec_kind(),
    {
        ChannelRef::new(self.platform.as_str(), self.channel_id.as_str(), self.kind)
    }

    pub fn new(platform: &str, channel_id: &str, kind: ChannelKind) -> (r: Self)
        ensures
            r.spec_platform() == platform@,
            r.spec_channel_id() == channel_id@,
            r.spec_kind() == kind,
    {
        ChannelRef { platform: PlatformId::new(platform), channel_id: channel_id.to_string(), kind }
    }

    pub fn direct(platform: &str, user_id: &str) -> (r: Self)
        ensures
            r.spec_platform() == platform@,
            r.spec_channel_id() == user_id@,
            r.spec_kind() == ChannelKind::Direct,
    {
        Self::new(platform, user_id, ChannelKind::Direct)
    }

    pub fn group(platform: &str, group_id: &str) -> (r: Self)
        ensures
            r.spec_platform() == platform@,
            r.spec_channel_id() == group_id@,
            r.spec_kind() == ChannelKind::Group,
    {
        Self::new(platform, group_id, ChannelKind::Group)
    }

    pub fn channel(platform: &str, channel_id: &str) -> (r: Self)
        ensures
            r.spec_platform() == platform@,
            r.spec_channel_id() == channel_id@,
            r.spec_kind() == ChannelKind::Channel,
    {
        Self::new(platform, channel_id, ChannelKind::Channel)
    }

    pub fn platform(&self) -> (r: &PlatformId)
        ensures
            r.spec_str() == self.spec_platform(),
    {
        &self.platform
    }

    pub fn channel_id(&self) -> (r: &str)
        ensures
            r@ == self.spec_channel_id(),
    {
        self.channel_id.as_str()
    }

    pub fn kind(&self) -> (r: ChannelKind)
        ensures
            r == self.spec_kind(),
    {
        self.kind
    }
}

#[derive(Clone, Debug, PartialEq, Eq, Hash)]
pub struct UserRef {
    platform: PlatformId,
    user_id: String,
    display_name: Option<String>,
}

impl UserRef {
    pub closed spec fn spec_platform(&self) -> Seq<char> {
        self.platform.spec_str()
    }

    pub closed spec fn spec_user_id(&self) -> Seq<char> {
        self.user_id@
    }

    pub closed spec fn spec_display_name(&self) -> Option<Seq<char>> {
        self.display_name.deep_view()
    }

    pub fn new(platform: &str, user_id: &str) -> (r: Self)
        ensures
            r.spec_platform() == platform@,
            r.spec_user_id() == user_id@,
            r.spec_display_name() == None::<Seq<char>>,
    {
        UserRef { platform: PlatformId::new(platform), user_id: user_id.to_string(), display_name: None }
    }

    pub fn with_display_name(self, display_name: &str) -> (r: Self)
        ensures
            r.spec_platform() == self.spec_platform(),
            r.spec_user_id() == self.spec_user_id(),
            r.spec_display_name() == Some(display_name@),
    {
        UserRef { display_name: Some(display_name.to_string()), ..self }
    }

    pub fn platform(&self) -> (r: &PlatformId)
        ensures
            r.spec_str() == self.spec_platform(),
    {
        &self.platform
    }

    pub fn user_id(&self) -> (r: &str)
        ensures
            r@ == self.spec_user_id(),
    {
        self.user_id.as_str()
    }

    pub fn display_name(&self) -> (r: Option<&str>)
        ensures
            r matches Some(s) ==> self.spec_display_name() == Some(s@),
            r is None ==> self.spec_display_name() is None,
    {
        match &self.display_name {
            Some(s) => Some(s.as_str()),
            None => None,
        }
    }
}

/// A parsed command: its name, the rest of the line, and the prefix that introduced it.
#[derive(Clone, Debug, PartialEq, Eq)]
pub struct CommandInvocation {
    command: String,
    args: String,
    prefix: Option<String>,
}

/// The abstract value of a [`CommandInvocation`].
pub struct InvocationView {
    pub command: Seq<char>,
    pub args: Seq<char>,
    pub prefix: Option<Seq<char>>,
}

impl View for CommandInvocation {
    type V = InvocationView;

    closed spec fn view(&self) -> InvocationView {
        InvocationView { command: self.command@, args: self.args@, prefix: self.prefix.deep_view() }
    }
}

impl CommandInvocation {
    pub fn new(command: &str, args: &str, prefix: Option<&str>) -> (r: Self)
        ensures
            r@.command == command@,
            r@.args == args@,
            r@.prefix == (match prefix {
                Some(p) => Some(p@),
                None => None,
            }),
    {
        let prefix = match prefix {
            Some(p) => Some(p.to_string()),
            None => None,
        };
        CommandInvocation { command: command.to_string(), args: args.to_string(), prefix }
    }

    /// Builds an invocation from owned strings.
    pub fn from_parts(command: String, args: String, prefix: Option<String>) -> (r: Self)
        ensures
            r@.command == command@,
            r@.args == args@,
            r@.prefix == prefix.deep_view(),
    {
        CommandInvocation { command, args, prefix }
    }

    /// A copy of this invocation.
    pub fn copy(&self) -> (r: Self)
        ensures
            r@ == self@,
    {
        let prefix = match &self.prefix {
            Some(p) => Some(p.clone()),
            None => None,
        };
        CommandInvocation { command: self.command.clone(), args: self.args.clone(), prefix }
    }

    pub fn command(&self) -> (r: &str)
        ensures
            r@ == self@.command,
    {
        self.command.as_str()
    }

    pub fn args(&self) -> (r: &str)
        ensures
            r@ == self@.args,
    {
        self.args.as_str()
    }

    pub fn prefix(&self) -> (r: Option<&str>)
        ensures
            r matches Some(s) ==> self@.prefix == Some(s@),
            r is None ==> self@.prefix is None,
    {
        match &self.prefix {
            Some(s) => Some(s.as_str()),
            None => None,
        }
    }
}

#[derive(Clone, Debug, PartialEq, Eq)]
pub enum MessageSegment {
    Text { text: String },
    Mention { user_id: String },
    Image { url: String },
    Attachment { name: Option<String>, url: Option<String>, mime: Option<String> },
    Unknown { kind: String, data: serde_json::Value },
}

impl MessageSegment {
    pub fn text(text: &str) -> (r: Self)
        ensures
            r matches MessageSegment::Text { text: t } && t@ == text@,
    {
        MessageSegment::Text { text: text.to_string() }
    }
}

/// The text that one segment adds to `acc` when a message is flattened to plain text.
pub open spec fn plain_text_step(acc: Seq<char>, seg: MessageSegment) -> Seq<char> {
    match seg {
        MessageSegment::Text { text } => acc + text@,
        MessageSegment::Mention { user_id } => (if acc.len() > 0 {
            acc.push(' ')
        } else {
            acc
        }).push('@') + user_id@,
        _ => acc,
    }
}

/// The untrimmed plain text of a sequence of segments.
pub open spec fn plain_text_raw(segs: Seq<MessageSegment>) -> Seq<char>
    decreases segs.len(),
{
    if segs.len() == 0 {
        Seq::empty()
    } else {
        plain_text_step(plain_text_raw(segs.drop_last()), segs.last())
    }
}

/// Plain text of a message: text segments verbatim, mentions as `@id`, the rest dropped, trimmed.
pub open spec fn plain_text_spec(segs: Seq<MessageSegment>) -> Seq<char> {
    trim_spec(plain_text_raw(segs))
}

/// The characters of a segment's text: its text for a text segment, nothing otherwise.
pub open spec fn text_content(seg: MessageSegment) -> Seq<char> {
    match seg {
        MessageSegment::Text { text } => text@,
        _ => Seq::empty(),
    }
}

/// The texts of the segments, one after the other, as they are.
pub open spec fn joined_texts(segs: Seq<MessageSegment>) -> Seq<char>
    decreases segs.len(),
{
    if segs.len() == 0 {
        Seq::empty()
    } else {
        text_content(segs[0]) + joined_texts(segs.drop_first())
    }
}

/// The texts of `a` then `b` are those of `a + b`.
proof fn lemma_joined_texts_append(a: Seq<MessageSegment>, b: Seq<MessageSegment>)
    ensures
        joined_texts(a + b) == joined_texts(a) + joined_texts(b),
    decreases a.len(),
{
    if a.len() == 0 {
        assert(a + b =~= b);
    } else {
        assert((a + b).drop_first() =~= a.drop_first() + b);
        lemma_joined_texts_append(a.drop_first(), b);
        assert(joined_texts(a + b) =~= text_content(a[0]) + (joined_texts(a.drop_first())
            + joined_texts(b)));
    }
}

/// Without mentions, the untrimmed plain text is the texts joined as they are.
proof fn lemma_raw_is_joined_texts(segs: Seq<MessageSegment>)
    requires
        forall|k: int| 0 <= k < segs.len() ==> !(#[trigger] segs[k] is Mention),
    ensures
        plain_text_raw(segs) == joined_texts(segs),
    decreases segs.len(),
{
    if segs.len() > 0 {
        let init = segs.drop_last();
        lemma_raw_is_joined_texts(init);
        lemma_joined_texts_append(init, seq![segs.last()]);
        assert(init + seq![segs.last()] =~= segs);
        let one = seq![segs.last()];
        assert(one.drop_first() =~= Seq::<MessageSegment>::empty());
        assert(joined_texts(one.drop_first()) == Seq::<char>::empty());
        assert(one[0] == segs.last());
        assert(joined_texts(one) =~= text_content(segs.last()));
        assert(!(segs[segs.len() - 1] is Mention));
    }
}

/// Flattening a message without mentions keeps every text segment as it is, drops the other
/// segments, and trims only the whole: the plain text is the trimmed join of the texts. So
/// words on either side of an image keep the spaces that the texts hold.
pub proof fn law_plain_text_keeps_texts_verbatim(segs: Seq<MessageSegment>)
    requires
        forall|k: int| 0 <= k < segs.len() ==> !(#[trigger] segs[k] is Mention),
    ensures
        plain_text_spec(segs) == trim_spec(joined_texts(segs)),
{
    lemma_raw_is_joined_texts(segs);
}

pub fn plain_text_from_segments(segments: &[MessageSegment]) -> (r: String)
    ensures
        r@ == plain_text_spec(segments@),
{
    let mut text = String::new();
    let mut i: usize = 0;
    while i < segments.len()
        invariant
            i <= segments.len(),
            text@ == plain_text_raw(segments@.take(i as int)),
        decreases segments.len() - i,
    {
        assert(segments@.take(i as int + 1).drop_last() == segments@.take(i as int));
        match &segments[i] {
            MessageSegment::Text { text: value } => text.push_str(value.as_str()),
            MessageSegment::Mention { user_id } => {
                if !text.as_str().is_empty() {
                    text.push(' ');
                }
                text.push('@');
                text.push_str(user_id.as_str());
            },
            _ => {},
        }
        i = i + 1;
    }
    assert(segments@.take(segments.len() as int) == segments@);
    trim_string(text.as_str())
}

#[derive(Clone, Debug, PartialEq, Eq)]
pub struct MessageEvent {
    pub message_id: Option<String>,
    pub sender: UserRef,
    pub channel: ChannelRef,
    pub text: String,
    pub segments: Vec<MessageSegment>,
}

impl MessageEvent {
    pub fn new(sender: UserRef, channel: ChannelRef, text: &str) -> (r: Self)
        ensures
            r.message_id is None,
            r.sender == sender,
            r.channel == channel,
            r.text@ == text@,
            r.segments@.len() == 1,
            r.segments@[0] matches MessageSegment::Text { text: t } && t@ == text@,
    {
        let mut segments = Vec::new();
        segments.push(MessageSegment::text(text));
        MessageEvent { message_id: None, sender, channel, text: text.to_string(), segments }
    }

    pub fn with_message_id(self, message_id: &str) -> (r: Self)
        ensures
            r.message_id.deep_view() == Some(message_id@),
            r.sender == self.sender,
            r.channel == self.channel,
            r.text == self.text,
            r.segments == self.segments,
    {
        MessageEvent { message_id: Some(message_id.to_string()), ..self }
    }

    pub fn with_segments(self, segments: Vec<MessageSegment>) -> (r: Self)
        ensures
            r.message_id == self.message_id,
            r.sender == self.sender,
            r.channel == self.channel,
            r.text@ == plain_text_spec(segments@),
            r.segments == segments,
    {
        let text = plain_text_from_segments(segments.as_slice());
        MessageEvent { text, segments, ..self }
    }
}

#[derive(Clone, Debug, PartialEq, Eq)]
pub struct EventEnvelope {
    pub bot_id: BotId,
    pub platform: PlatformId,
    pub received_at: std::time::SystemTime,
    pub message: Option<MessageEvent>,
}

impl EventEnvelope {
    pub fn new(bot_id: &str, platform: &str) -> (r: Self)
        ensures
            r.bot_id.spec_str() == bot_id@,
            r.platform.spec_str() == platform@,
            r.message is None,
    {
        EventEnvelope {
            bot_id: BotId::new(bot_id),
            platform: PlatformId::new(platform),
            received_at: system_time_now(),
            message: None,
        }
    }

    pub fn with_message(self, message: MessageEvent) -> (r: Self)
        ensures
            r.bot_id == self.bot_id,
            r.platform == self.platform,
            r.message == Some(message),
    {
        EventEnvelope { message: Some(message), ..self }
    }

    pub fn message(&self) -> (r: Option<&MessageEvent>)
        ensures
            r matches Some(m) ==> self.message == Some(*m),
            r is None ==> self.message is None,
    {
        match &self.message {
            Some(m) => Some(m),
            None => None,
        }
    }
}

#[derive(Clone, Debug, PartialEq, Eq)]
pub struct OutboundMessage {
    pub target: ChannelRef,
    pub segments: Vec<MessageSegment>,
}

impl OutboundMessage {
    pub fn new(target: ChannelRef, segments: Vec<MessageSegment>) -> (r: Self)
        ensures
            r.target == target,
            r.segments == segments,
    {
        OutboundMessage { target, segments }
    }

    pub fn text(target: ChannelRef, text: &str) -> (r: Self)
        ensures
            r.target == target,
            r.segments@.len() == 1,
            r.segments@[0] matches MessageSegment::Text { text: t } && t@ == text@,
    {
        let mut segments = Vec::new();
        segments.push(MessageSegment::text(text));
        OutboundMessage { target, segments }
    }

    pub fn plain_text(&self) -> (r: String)
        ensures
            r@ == plain_text_spec(self.segments@),
    {
        plain_text_from_segments(self.segments.as_slice())
    }
}

#[derive(Clone, Debug, PartialEq, Eq, Default)]
pub struct OutboundReceipt {
    pub message_id: Option<String>,
}

} // verus!
