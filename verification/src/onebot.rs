//! The OneBot v11 protocol: messages and their segments, the text preview of a message, the
//! conversion from platform-neutral segments, forward nodes, API requests and responses, and the
//! event payloads the protocol delivers.
use vstd::prelude::*;

use crate::engine::{debug_str, str_debug};
use crate::event::Event;
use crate::model::MessageSegment as KernelSegment;
use crate::text::{decimal, decimal_spec, owned, signed_decimal, signed_decimal_spec, str_equal};

verus! {

/// A OneBot message: a plain string, one segment, or a list of segments.
#[derive(Debug)]
pub enum Message {
    String(String),
    Segment(MessageSegment),
    Array(Vec<MessageSegment>),
}

/// The payload of a forward node: a reference to a stored message, or a message written out
/// with the identity it is shown under.
#[derive(Debug)]
pub enum NodeData {
    Id { id: String },
    Custom { user_id: i64, nickname: String, content: Box<Message> },
}

/// One segment of a OneBot message.
#[derive(Debug)]
pub enum MessageSegment {
    Text { text: String },
    Face { id: String },
    Image { file: String, image_type: Option<String>, url: Option<String> },
    Record { file: String, magic: Option<String>, url: Option<String> },
    Video { file: String, url: Option<String> },
    At { qq: String },
    Rps,
    Dice,
    Shake,
    Poke { poke_type: String, id: String },
    Anonymous,
    Share { url: String, title: String, content: Option<String>, image: Option<String> },
    Contact { contact_type: String, id: String },
    Location { lat: String, lon: String, title: Option<String>, content: Option<String> },
    Music { music_type: String, id: String },
    Reply { id: String },
    Forward { id: String },
    Node { data: NodeData },
    Xml { data: String },
    Json { data: String },
    Unknown,
}

/// How a segment reads in a one-line preview of a message.
pub open spec fn preview_of(seg: MessageSegment) -> Seq<char> {
    match seg {
        MessageSegment::Text { text } => text@,
        MessageSegment::Face { id } => "[表情:"@ + id@ + "]"@,
        MessageSegment::Image { .. } => "[图片]"@,
        MessageSegment::Record { .. } => "[语音]"@,
        MessageSegment::Video { .. } => "[视频]"@,
        MessageSegment::At { qq } => "[@"@ + qq@ + "]"@,
        MessageSegment::Rps => "[猜拳]"@,
        MessageSegment::Dice => "[骰子]"@,
        MessageSegment::Shake => "[戳一戳]"@,
        MessageSegment::Poke { .. } => "[戳一戳]"@,
        MessageSegment::Anonymous => "[匿名]"@,
        MessageSegment::Share { title, .. } => "[分享:"@ + title@ + "]"@,
        MessageSegment::Contact { contact_type, id } => "[推荐"@ + contact_type@ + ":"@ + id@ + "]"@,
        MessageSegment::Location { .. } => "[位置]"@,
        MessageSegment::Music { music_type, .. } => "[音乐:"@ + music_type@ + "]"@,
        MessageSegment::Reply { id } => "[回复:"@ + id@ + "]"@,
        MessageSegment::Forward { .. } => "[转发消息]"@,
        MessageSegment::Node { .. } => "[消息节点]"@,
        MessageSegment::Xml { .. } => "[XML消息]"@,
        MessageSegment::Json { .. } => "[JSON消息]"@,
        MessageSegment::Unknown => "[未知消息]"@,
    }
}

impl MessageSegment {
    /// Appends the segment's preview to `buf`.
    pub fn write_preview(&self, buf: &mut String)
        ensures
            final(buf)@ == old(buf)@ + preview_of(*self),
    {
        match self {
            MessageSegment::Text { text } => buf.push_str(text.as_str()),
            MessageSegment::Face { id } => {
                buf.push_str("[表情:");
                buf.push_str(id.as_str());
                buf.push_str("]");
            },
            MessageSegment::Image { .. } => buf.push_str("[图片]"),
            MessageSegment::Record { .. } => buf.push_str("[语音]"),
            MessageSegment::Video { .. } => buf.push_str("[视频]"),
            MessageSegment::At { qq } => {
                buf.push_str("[@");
                buf.push_str(qq.as_str());
                buf.push_str("]");
            },
            MessageSegment::Rps => buf.push_str("[猜拳]"),
            MessageSegment::Dice => buf.push_str("[骰子]"),
            MessageSegment::Shake => buf.push_str("[戳一戳]"),
            MessageSegment::Poke { .. } => buf.push_str("[戳一戳]"),
            MessageSegment::Anonymous => buf.push_str("[匿名]"),
            MessageSegment::Share { title, .. } => {
                buf.push_str("[分享:");
                buf.push_str(title.as_str());
                buf.push_str("]");
            },
            MessageSegment::Contact { contact_type, id } => {
                buf.push_str("[推荐");
                buf.push_str(contact_type.as_str());
                buf.push_str(":");
                buf.push_str(id.as_str());
                buf.push_str("]");
            },
            MessageSegment::Location { .. } => buf.push_str("[位置]"),
            MessageSegment::Music { music_type, .. } => {
                buf.push_str("[音乐:");
                buf.push_str(music_type.as_str());
                buf.push_str("]");
            },
            MessageSegment::Reply { id } => {
                buf.push_str("[回复:");
                buf.push_str(id.as_str());
                buf.push_str("]");
            },
            MessageSegment::Forward { .. } => buf.push_str("[转发消息]"),
            MessageSegment::Node { .. } => buf.push_str("[消息节点]"),
            MessageSegment::Xml { .. } => buf.push_str("[XML消息]"),
            MessageSegment::Json { .. } => buf.push_str("[JSON消息]"),
            MessageSegment::Unknown => buf.push_str("[未知消息]"),
        }
    }
}

/// The previews of `segs`, one after another.
pub open spec fn previews(segs: Seq<MessageSegment>) -> Seq<char>
    decreases segs.len(),
{
    if segs.len() == 0 {
        Seq::empty()
    } else {
        previews(segs.drop_last()) + preview_of(segs.last())
    }
}

/// A message as a log line shows it: the quoted text of a plain message, or the quoted preview
/// of its segments.
pub open spec fn formatted_message(message: Message) -> Seq<char> {
    match message {
        Message::String(s) => str_debug(s@),
        Message::Segment(seg) => str_debug(preview_of(seg)),
        Message::Array(segs) => str_debug(previews(segs@)),
    }
}

/// The previews of `segs`, one after another.
pub fn preview_segments(segs: &Vec<MessageSegment>) -> (r: String)
    ensures
        r@ == previews(segs@),
{
    let mut buf = String::new();
    let mut i: usize = 0;
    while i < segs.len()
        invariant
            i <= segs@.len(),
            buf@ == previews(segs@.take(i as int)),
        decreases segs.len() - i,
    {
        proof {
            let t = segs@.take(i as int + 1);
            assert(t.drop_last() =~= segs@.take(i as int));
            assert(t.last() == segs@[i as int]);
        }
        segs[i].write_preview(&mut buf);
        i = i + 1;
    }
    assert(segs@.take(segs@.len() as int) =~= segs@);
    buf
}

/// A message as a log line shows it.
pub fn format_message(message: &Message) -> (r: String)
    ensures
        r@ == formatted_message(*message),
{
    match message {
        Message::String(s) => debug_str(s.as_str()),
        Message::Segment(seg) => {
            let mut buf = String::new();
            seg.write_preview(&mut buf);
            debug_str(buf.as_str())
        },
        Message::Array(segs) => {
            let preview = preview_segments(segs);
            debug_str(preview.as_str())
        },
    }
}

/// `o` is what a platform-neutral segment `k` becomes: text stays text, a mention becomes an
/// `@`, an image is sent by its URL, and an attachment as a voice record of its URL (empty when
/// it has none).
pub open spec fn converts_to(k: KernelSegment, o: MessageSegment) -> bool {
    match (k, o) {
        (KernelSegment::Text { text }, MessageSegment::Text { text: t }) => t@ == text@,
        (KernelSegment::Mention { user_id }, MessageSegment::At { qq }) => qq@ == user_id@,
        (KernelSegment::Image { url }, MessageSegment::Image { file, image_type, url: u }) => file@
            == url@ && image_type is None && u is None,
        (KernelSegment::Attachment { url, .. }, MessageSegment::Record { file, magic, url: u }) => file@
            == (match url {
            Some(x) => x@,
            None => Seq::empty(),
        }) && magic is None && u is None,
        _ => false,
    }
}

/// Platform-neutral segments that OneBot can send (all but unknown ones).
pub open spec fn sendable(segs: Seq<KernelSegment>) -> Seq<KernelSegment>
    decreases segs.len(),
{
    if segs.len() == 0 {
        segs
    } else if segs.last() is Unknown {
        sendable(segs.drop_last())
    } else {
        sendable(segs.drop_last()).push(segs.last())
    }
}

/// The segments of a message as OneBot sends it.
pub open spec fn message_segments(m: Message) -> Seq<MessageSegment> {
    match m {
        Message::String(s) => Seq::empty(),
        Message::Segment(seg) => seq![seg],
        Message::Array(segs) => segs@,
    }
}

/// `m` is the OneBot message for `segs`: the convertible segments converted in order; an empty
/// string when there is none, the segment itself when there is one, a list otherwise.
pub open spec fn message_for(segs: Seq<KernelSegment>, m: Message) -> bool {
    let s = sendable(segs);
    &&& s.len() == 0 ==> (m matches Message::String(t) && t@.len() == 0)
    &&& s.len() == 1 ==> m is Segment
    &&& s.len() > 1 ==> m is Array
    &&& message_segments(m).len() == s.len()
    &&& forall|i: int| 0 <= i < s.len() ==> converts_to(s[i], #[trigger] message_segments(m)[i])
}

fn convert_segment(k: KernelSegment) -> (r: Option<MessageSegment>)
    ensures
        k is Unknown ==> r is None,
        !(k is Unknown) ==> (r matches Some(o) && converts_to(k, o)),
{
    match k {
        KernelSegment::Text { text } => Some(MessageSegment::Text { text }),
        KernelSegment::Mention { user_id } => Some(MessageSegment::At { qq: user_id }),
        KernelSegment::Image { url } => Some(
            MessageSegment::Image { file: url, image_type: None, url: None },
        ),
        KernelSegment::Attachment { url, .. } => {
            let file = match url {
                Some(u) => u,
                None => String::new(),
            };
            Some(MessageSegment::Record { file, magic: None, url: None })
        },
        KernelSegment::Unknown { .. } => None,
    }
}

/// The OneBot message for platform-neutral segments.
pub fn to_onebot_message(segments: Vec<KernelSegment>) -> (r: Message)
    ensures
        message_for(segments@, r),
{
    let ghost orig = segments@;
    let mut out: Vec<MessageSegment> = Vec::new();
    let mut rest = segments;
    assert(orig.take(0) =~= Seq::<KernelSegment>::empty());
    assert(orig.skip(0) =~= orig);
    while rest.len() > 0
        invariant
            rest.len() <= orig.len(),
            rest@ == orig.skip(orig.len() - rest.len()),
            out@.len() == sendable(orig.take(orig.len() - rest.len())).len(),
            forall|i: int|
                0 <= i < out@.len() ==> converts_to(
                    sendable(orig.take(orig.len() - rest.len()))[i],
                    #[trigger] out@[i],
                ),
        decreases rest.len(),
    {
        let ghost done = orig.len() - rest.len();
        let k = rest.remove(0);
        assert(k == orig[done]);
        assert(rest@ =~= orig.skip(done + 1));
        proof {
            let t = orig.take(done + 1);
            assert(t.drop_last() =~= orig.take(done));
            assert(t.last() == k);
        }
        let ghost kk = k;
        match convert_segment(k) {
            Some(o) => {
                out.push(o);
            },
            None => {},
        }
        proof {
            let s0 = sendable(orig.take(done));
            let s1 = sendable(orig.take(done + 1));
            if !(kk is Unknown) {
                assert(s1 == s0.push(kk));
                assert forall|i: int| 0 <= i < out@.len() implies converts_to(s1[i], #[trigger] out@[i]) by {
                    if i < s0.len() {
                        assert(s1[i] == s0[i]);
                    }
                }
            }
        }
    }
    assert(orig.take(orig.len() as int) =~= orig);
    if out.len() == 0 {
        Message::String(String::new())
    } else if out.len() == 1 {
        let seg = out.remove(0);
        Message::Segment(seg)
    } else {
        Message::Array(out)
    }
}

/// The identity the bot is logged in with.
#[derive(Debug, Clone)]
pub struct LoginInfoData {
    pub user_id: i64,
    pub nickname: String,
}

/// One message of a forward bundle: who it is shown from, and its segments.
#[derive(Debug, Clone)]
pub struct ForwardNode {
    pub user_id: i64,
    pub nickname: String,
    pub content: Vec<KernelSegment>,
}

/// Nodes of a forward bundle as OneBot sends them: each shown under the bot's own identity when
/// it is known, otherwise under the node's, with its content converted.
pub fn to_onebot_forward_nodes(nodes: Vec<ForwardNode>, profile: Option<&LoginInfoData>) -> (r: Vec<
    MessageSegment,
>)
    ensures
        r@.len() == nodes@.len(),
        forall|i: int|
            0 <= i < nodes@.len() ==> (#[trigger] r@[i] matches MessageSegment::Node {
                data: NodeData::Custom { user_id, nickname, content },
            } && user_id == (match profile {
                Some(p) => p.user_id,
                None => nodes@[i].user_id,
            }) && nickname@ == (match profile {
                Some(p) => p.nickname@,
                None => nodes@[i].nickname@,
            }) && message_for(nodes@[i].content@, *content)),
{
    let ghost orig = nodes@;
    let mut out: Vec<MessageSegment> = Vec::new();
    let mut rest = nodes;
    assert(orig.skip(0) =~= orig);
    while rest.len() > 0
        invariant
            rest.len() <= orig.len(),
            rest@ == orig.skip(orig.len() - rest.len()),
            out@.len() == orig.len() - rest.len(),
            forall|i: int|
                0 <= i < out@.len() ==> (#[trigger] out@[i] matches MessageSegment::Node {
                    data: NodeData::Custom { user_id, nickname, content },
                } && user_id == (match profile {
                    Some(p) => p.user_id,
                    None => orig[i].user_id,
                }) && nickname@ == (match profile {
                    Some(p) => p.nickname@,
                    None => orig[i].nickname@,
                }) && message_for(orig[i].content@, *content)),
        decreases rest.len(),
    {
        let ghost done = orig.len() - rest.len();
        let node = rest.remove(0);
        assert(node == orig[done]);
        assert(rest@ =~= orig.skip(done + 1));
        let user_id = match profile {
            Some(p) => p.user_id,
            None => node.user_id,
        };
        let nickname = match profile {
            Some(p) => p.nickname.clone(),
            None => node.nickname,
        };
        let content = to_onebot_message(node.content);
        out.push(
            MessageSegment::Node {
                data: NodeData::Custom { user_id, nickname, content: Box::new(content) },
            },
        );
    }
    out
}

/// A platform-neutral segment for a received OneBot segment: text, mention, image (by URL, or
/// by file when there is none), voice or video as an attachment (likewise); `None` for the rest.
pub fn to_kernel_segment(segment: &MessageSegment) -> (r: Option<KernelSegment>)
    ensures
        match *segment {
            MessageSegment::Text { text } => r matches Some(KernelSegment::Text { text: t }) && t@
                == text@,
            MessageSegment::At { qq } => r matches Some(KernelSegment::Mention { user_id }) && user_id@
                == qq@,
            MessageSegment::Image { file, url, .. } => r matches Some(KernelSegment::Image { url: u })
                && u@ == (match url {
                Some(x) => x@,
                None => file@,
            }),
            MessageSegment::Record { file, url, .. } | MessageSegment::Video { file, url } => r matches Some(
                KernelSegment::Attachment { name, url: u, mime },
            ) && name is None && mime is None && u.deep_view() == Some(
                match url {
                    Some(x) => x@,
                    None => file@,
                },
            ),
            _ => r is None,
        },
{
    match segment {
        MessageSegment::Text { text } => Some(KernelSegment::Text { text: text.clone() }),
        MessageSegment::At { qq } => Some(KernelSegment::Mention { user_id: qq.clone() }),
        MessageSegment::Image { file, url, .. } => {
            let u = match url {
                Some(x) => x.clone(),
                None => file.clone(),
            };
            Some(KernelSegment::Image { url: u })
        },
        MessageSegment::Record { file, url, .. } | MessageSegment::Video { file, url } => {
            let u = match url {
                Some(x) => x.clone(),
                None => file.clone(),
            };
            Some(KernelSegment::Attachment { name: None, url: Some(u), mime: None })
        },
        _ => None,
    }
}

/// A parameter of an API request.
#[derive(Debug)]
pub enum ActionParam {
    Int(i64),
    Bool(bool),
    Message(Message),
}

/// A request to the OneBot implementation: the action, its named parameters in order, and the
/// echo that ties the response to it.
#[derive(Debug)]
pub struct ApiRequest {
    pub action: String,
    pub params: Vec<(String, ActionParam)>,
    pub echo: Option<String>,
}

/// An action the bot asks of the OneBot implementation.
#[derive(Debug)]
pub enum OneBotAction {
    SendPrivateMsg { user_id: i64, message: Message },
    SendGroupMsg { group_id: i64, message: Message },
    SetGroupKick { group_id: i64, user_id: i64, reject_add_request: bool },
    DeleteMsg { message_id: i32 },
    GetLoginInfo,
    GetGroupInfo { group_id: i64, no_cache: bool },
    GetGroupMemberInfo { group_id: i64, user_id: i64, no_cache: bool },
    SetGroupBan { group_id: i64, user_id: i64, duration: i64 },
}

/// The protocol name of an action.
pub open spec fn action_name(a: OneBotAction) -> Seq<char> {
    match a {
        OneBotAction::SendPrivateMsg { .. } => "send_private_msg"@,
        OneBotAction::SendGroupMsg { .. } => "send_group_msg"@,
        OneBotAction::SetGroupKick { .. } => "set_group_kick"@,
        OneBotAction::DeleteMsg { .. } => "delete_msg"@,
        OneBotAction::GetLoginInfo => "get_login_info"@,
        OneBotAction::GetGroupInfo { .. } => "get_group_info"@,
        OneBotAction::GetGroupMemberInfo { .. } => "get_group_member_info"@,
        OneBotAction::SetGroupBan { .. } => "set_group_ban"@,
    }
}

/// The parameter names of an action, in the order the request lists them.
pub open spec fn param_names(a: OneBotAction) -> Seq<Seq<char>> {
    match a {
        OneBotAction::SendPrivateMsg { .. } => seq!["user_id"@, "message"@],
        OneBotAction::SendGroupMsg { .. } => seq!["group_id"@, "message"@],
        OneBotAction::SetGroupKick { .. } => seq!["group_id"@, "user_id"@, "reject_add_request"@],
        OneBotAction::DeleteMsg { .. } => seq!["message_id"@],
        OneBotAction::GetLoginInfo => seq![],
        OneBotAction::GetGroupInfo { .. } => seq!["group_id"@, "no_cache"@],
        OneBotAction::GetGroupMemberInfo { .. } => seq!["group_id"@, "user_id"@, "no_cache"@],
        OneBotAction::SetGroupBan { .. } => seq!["group_id"@, "user_id"@, "duration"@],
    }
}

/// The values of the integer and flag parameters of an action, in order (the message of a
/// send is the action's own).
pub open spec fn param_scalars(a: OneBotAction) -> Seq<ActionParamScalar> {
    match a {
        OneBotAction::SendPrivateMsg { user_id, .. } => seq![ActionParamScalar::Int(user_id as int)],
        OneBotAction::SendGroupMsg { group_id, .. } => seq![ActionParamScalar::Int(group_id as int)],
        OneBotAction::SetGroupKick { group_id, user_id, reject_add_request } => seq![
            ActionParamScalar::Int(group_id as int),
            ActionParamScalar::Int(user_id as int),
            ActionParamScalar::Bool(reject_add_request),
        ],
        OneBotAction::DeleteMsg { message_id } => seq![ActionParamScalar::Int(message_id as int)],
        OneBotAction::GetLoginInfo => seq![],
        OneBotAction::GetGroupInfo { group_id, no_cache } => seq![
            ActionParamScalar::Int(group_id as int),
            ActionParamScalar::Bool(no_cache),
        ],
        OneBotAction::GetGroupMemberInfo { group_id, user_id, no_cache } => seq![
            ActionParamScalar::Int(group_id as int),
            ActionParamScalar::Int(user_id as int),
            ActionParamScalar::Bool(no_cache),
        ],
        OneBotAction::SetGroupBan { group_id, user_id, duration } => seq![
            ActionParamScalar::Int(group_id as int),
            ActionParamScalar::Int(user_id as int),
            ActionParamScalar::Int(duration as int),
        ],
    }
}

/// The action's `group_id` field, where it has one.
pub open spec fn group_id_field(a: OneBotAction) -> Option<ActionParamScalar> {
    match a {
        OneBotAction::SendGroupMsg { group_id, .. } => Some(ActionParamScalar::Int(group_id as int)),
        OneBotAction::SetGroupKick { group_id, .. } => Some(ActionParamScalar::Int(group_id as int)),
        OneBotAction::GetGroupInfo { group_id, .. } => Some(ActionParamScalar::Int(group_id as int)),
        OneBotAction::GetGroupMemberInfo { group_id, .. } => Some(
            ActionParamScalar::Int(group_id as int),
        ),
        OneBotAction::SetGroupBan { group_id, .. } => Some(ActionParamScalar::Int(group_id as int)),
        _ => None,
    }
}

/// The action's `user_id` field, where it has one.
pub open spec fn user_id_field(a: OneBotAction) -> Option<ActionParamScalar> {
    match a {
        OneBotAction::SendPrivateMsg { user_id, .. } => Some(ActionParamScalar::Int(user_id as int)),
        OneBotAction::SetGroupKick { user_id, .. } => Some(ActionParamScalar::Int(user_id as int)),
        OneBotAction::GetGroupMemberInfo { user_id, .. } => Some(
            ActionParamScalar::Int(user_id as int),
        ),
        OneBotAction::SetGroupBan { user_id, .. } => Some(ActionParamScalar::Int(user_id as int)),
        _ => None,
    }
}

/// The action's other integer and flag fields, by name, where it has them.
pub open spec fn other_field(a: OneBotAction, name: Seq<char>) -> Option<ActionParamScalar> {
    match a {
        OneBotAction::SetGroupKick { reject_add_request, .. } => if name == "reject_add_request"@ {
            Some(ActionParamScalar::Bool(reject_add_request))
        } else {
            None
        },
        OneBotAction::DeleteMsg { message_id } => if name == "message_id"@ {
            Some(ActionParamScalar::Int(message_id as int))
        } else {
            None
        },
        OneBotAction::GetGroupInfo { no_cache, .. } => if name == "no_cache"@ {
            Some(ActionParamScalar::Bool(no_cache))
        } else {
            None
        },
        OneBotAction::GetGroupMemberInfo { no_cache, .. } => if name == "no_cache"@ {
            Some(ActionParamScalar::Bool(no_cache))
        } else {
            None
        },
        OneBotAction::SetGroupBan { duration, .. } => if name == "duration"@ {
            Some(ActionParamScalar::Int(duration as int))
        } else {
            None
        },
        _ => None,
    }
}

/// Each parameter carries the action's field of the same name: `group_id` the group,
/// `user_id` the user, and so on for `reject_add_request`, `message_id`, `no_cache` and
/// `duration`.
pub open spec fn params_carry_fields(a: OneBotAction, params: Seq<(String, ActionParam)>) -> bool {
    forall|k: int|
        0 <= k < params.len() ==> {
            &&& (#[trigger] params[k]).0@ == "group_id"@ ==> scalar_of(params[k].1)
                == group_id_field(a)
            &&& params[k].0@ == "user_id"@ ==> scalar_of(params[k].1) == user_id_field(a)
            &&& (params[k].0@ == "reject_add_request"@ || params[k].0@ == "message_id"@
                || params[k].0@ == "no_cache"@ || params[k].0@ == "duration"@) ==> scalar_of(
                params[k].1,
            ) == other_field(a, params[k].0@)
        }
}

/// An integer or flag parameter as a plain value.
pub enum ActionParamScalar {
    Int(int),
    Bool(bool),
}

/// A parameter as a plain value; a message parameter has none.
pub open spec fn scalar_of(p: ActionParam) -> Option<ActionParamScalar> {
    match p {
        ActionParam::Int(n) => Some(ActionParamScalar::Int(n as int)),
        ActionParam::Bool(b) => Some(ActionParamScalar::Bool(b)),
        ActionParam::Message(_) => None,
    }
}

fn param(name: &str, value: ActionParam) -> (r: (String, ActionParam))
    ensures
        r.0@ == name@,
        r.1 == value,
{
    (owned(name), value)
}

/// The parameter names are different texts.
proof fn lemma_names_distinct()
    ensures
        "group_id"@ != "user_id"@,
        "group_id"@ != "message"@,
        "user_id"@ != "message"@,
        "group_id"@ != "reject_add_request"@,
        "user_id"@ != "reject_add_request"@,
        "group_id"@ != "message_id"@,
        "user_id"@ != "message_id"@,
        "group_id"@ != "no_cache"@,
        "user_id"@ != "no_cache"@,
        "group_id"@ != "duration"@,
        "user_id"@ != "duration"@,
        "message"@ != "reject_add_request"@,
        "message"@ != "message_id"@,
        "message"@ != "no_cache"@,
        "message"@ != "duration"@,
{
    reveal_strlit("group_id");
    reveal_strlit("user_id");
    reveal_strlit("message");
    reveal_strlit("reject_add_request");
    reveal_strlit("message_id");
    reveal_strlit("no_cache");
    reveal_strlit("duration");
    assert("group_id"@[0] != "user_id"@[0]);
    assert("group_id"@[0] != "message"@[0]);
    assert("user_id"@[0] != "message"@[0]);
    assert("group_id"@[0] != "reject_add_request"@[0]);
    assert("user_id"@[0] != "reject_add_request"@[0]);
    assert("group_id"@[0] != "message_id"@[0]);
    assert("user_id"@[0] != "message_id"@[0]);
    assert("group_id"@[0] != "no_cache"@[0]);
    assert("user_id"@[0] != "no_cache"@[0]);
    assert("group_id"@[0] != "duration"@[0]);
    assert("user_id"@[0] != "duration"@[0]);
    assert("message"@[0] != "reject_add_request"@[0]);
    assert("message"@.len() != "message_id"@.len());
    assert("message"@[0] != "no_cache"@[0]);
    assert("message"@[0] != "duration"@[0]);
}

/// The integer and flag parameters of every action carry the field of their own name: the
/// value listed under `group_id` is the action's group, under `user_id` its user, and so on.
/// (A message, where there is one, comes last, so the values line up with the names.)
pub proof fn law_parameters_carry_their_fields(a: OneBotAction)
    ensures
        param_scalars(a).len() <= param_names(a).len(),
        forall|k: int|
            0 <= k < param_scalars(a).len() ==> {
                &&& #[trigger] param_names(a)[k] == "group_id"@ ==> Some(param_scalars(a)[k])
                    == group_id_field(a)
                &&& param_names(a)[k] == "user_id"@ ==> Some(param_scalars(a)[k])
                    == user_id_field(a)
                &&& (param_names(a)[k] == "reject_add_request"@ || param_names(a)[k]
                    == "message_id"@ || param_names(a)[k] == "no_cache"@ || param_names(a)[k]
                    == "duration"@) ==> Some(param_scalars(a)[k]) == other_field(
                    a,
                    param_names(a)[k],
                )
            },
{
    lemma_names_distinct();
}

impl OneBotAction {
    /// The request for this action: its protocol name, its parameters by name, and no echo.
    pub fn into_request(self) -> (r: ApiRequest)
        ensures
            r.action@ == action_name(self),
            r.echo is None,
            r.params@.map_values(|p: (String, ActionParam)| p.0@) == param_names(self),
            r.params@.map_values(|p: (String, ActionParam)| scalar_of(p.1)).filter(
                |o: Option<ActionParamScalar>| o is Some,
            ).map_values(|o: Option<ActionParamScalar>| o->Some_0) == param_scalars(self),
            self matches OneBotAction::SendPrivateMsg { message, .. } ==> r.params@.len() == 2
                && r.params@[1].1 == ActionParam::Message(message),
            self matches OneBotAction::SendGroupMsg { message, .. } ==> r.params@.len() == 2
                && r.params@[1].1 == ActionParam::Message(message),
            params_carry_fields(self, r.params@),
    {
        let ghost a = self;
        let mut params: Vec<(String, ActionParam)> = Vec::new();
        let action = match self {
            OneBotAction::SendPrivateMsg { user_id, message } => {
                params.push(param("user_id", ActionParam::Int(user_id)));
                params.push(param("message", ActionParam::Message(message)));
                proof {
                    lemma_names_distinct();
                    assert(params_carry_fields(a, params@));
                }
                owned("send_private_msg")
            },
            OneBotAction::SendGroupMsg { group_id, message } => {
                params.push(param("group_id", ActionParam::Int(group_id)));
                params.push(param("message", ActionParam::Message(message)));
                proof {
                    lemma_names_distinct();
                    assert(params_carry_fields(a, params@));
                }
                owned("send_group_msg")
            },
            OneBotAction::SetGroupKick { group_id, user_id, reject_add_request } => {
                params.push(param("group_id", ActionParam::Int(group_id)));
                params.push(param("user_id", ActionParam::Int(user_id)));
                params.push(param("reject_add_request", ActionParam::Bool(reject_add_request)));
                proof {
                    lemma_names_distinct();
                    assert(params_carry_fields(a, params@));
                }
                owned("set_group_kick")
            },
            OneBotAction::DeleteMsg { message_id } => {
                params.push(param("message_id", ActionParam::Int(message_id as i64)));
                proof {
                    lemma_names_distinct();
                    assert(params_carry_fields(a, params@));
                }
                owned("delete_msg")
            },
            OneBotAction::GetLoginInfo => {
                proof {
                    lemma_names_distinct();
                    assert(params_carry_fields(a, params@));
                }
                owned("get_login_info")
            },
            OneBotAction::GetGroupInfo { group_id, no_cache } => {
                params.push(param("group_id", ActionParam::Int(group_id)));
                params.push(param("no_cache", ActionParam::Bool(no_cache)));
                proof {
                    lemma_names_distinct();
                    assert(params_carry_fields(a, params@));
                }
                owned("get_group_info")
            },
            OneBotAction::GetGroupMemberInfo { group_id, user_id, no_cache } => {
                params.push(param("group_id", ActionParam::Int(group_id)));
                params.push(param("user_id", ActionParam::Int(user_id)));
                params.push(param("no_cache", ActionParam::Bool(no_cache)));
                proof {
                    lemma_names_distinct();
                    assert(params_carry_fields(a, params@));
                }
                owned("get_group_member_info")
            },
            OneBotAction::SetGroupBan { group_id, user_id, duration } => {
                params.push(param("group_id", ActionParam::Int(group_id)));
                params.push(param("user_id", ActionParam::Int(user_id)));
                params.push(param("duration", ActionParam::Int(duration)));
                proof {
                    lemma_names_distinct();
                    assert(params_carry_fields(a, params@));
                }
                owned("set_group_ban")
            },
        };
        proof {
            let names = params@.map_values(|p: (String, ActionParam)| p.0@);
            assert(names =~= param_names(a));
            let sc = params@.map_values(|p: (String, ActionParam)| scalar_of(p.1));
            let keep = |o: Option<ActionParamScalar>| o is Some;
            reveal_with_fuel(Seq::filter, 4);
            assert(sc.filter(keep).map_values(|o: Option<ActionParamScalar>| o->Some_0)
                =~= param_scalars(a));
            reveal_strlit("group_id");
            reveal_strlit("user_id");
            reveal_strlit("message");
            reveal_strlit("reject_add_request");
            reveal_strlit("message_id");
            reveal_strlit("no_cache");
            reveal_strlit("duration");
        }
        ApiRequest { action, params, echo: None }
    }
}

/// A response of the OneBot implementation.
#[derive(Debug, Clone)]
pub struct ApiResponse {
    pub status: String,
    pub retcode: i32,
    pub data: serde_json::Value,
    pub echo: Option<String>,
}

/// Renders a JSON value as compact JSON text (`Display` of `serde_json::Value`); what the text
/// is, is not stated.
#[verifier::external_body]
fn json_text(value: &serde_json::Value) -> String {
    value.to_string()
}

/// The start of the error for a failed action; the response data follows as JSON text.
pub open spec fn failed_action_prefix(action: Seq<char>, status: Seq<char>, retcode: i32) -> Seq<char> {
    "OneBot action `"@ + action + "` failed: status="@ + status + ", retcode="@ + signed_decimal_spec(
        retcode as int,
    ) + ", data="@
}

impl ApiResponse {
    /// The call succeeded: status `ok` and return code 0.
    pub fn is_ok(&self) -> (r: bool)
        ensures
            r == (self.status@ == "ok"@ && self.retcode == 0),
    {
        str_equal(self.status.as_str(), "ok") && self.retcode == 0
    }

    /// Nothing when the call succeeded, else an error naming the action, the status, the return
    /// code and the data.
    pub fn ensure_ok(&self, action: &str) -> (r: Result<(), String>)
        ensures
            r is Ok <==> (self.status@ == "ok"@ && self.retcode == 0),
            r matches Err(msg) ==> failed_action_prefix(action@, self.status@, self.retcode).is_prefix_of(
                msg@,
            ),
    {
        if self.is_ok() {
            return Ok(());
        }
        let mut msg = owned("OneBot action `");
        msg.push_str(action);
        msg.push_str("` failed: status=");
        msg.push_str(self.status.as_str());
        msg.push_str(", retcode=");
        msg.push_str(signed_decimal(self.retcode as i64).as_str());
        msg.push_str(", data=");
        let ghost head = msg@;
        msg.push_str(json_text(&self.data).as_str());
        assert(head.is_prefix_of(msg@)) by {
            assert forall|i: int| 0 <= i < head.len() implies head[i] == msg@[i] by {}
        }
        Err(msg)
    }
}

/// Who an outbound message goes to, as OneBot addresses it.
#[derive(Debug, Clone, Copy, PartialEq, Eq)]
pub enum SendTarget {
    Private,
    Group,
}

/// Direct channels are private chats; groups and channels are groups.
pub fn send_target(kind: crate::model::ChannelKind) -> (r: SendTarget)
    ensures
        r == (match kind {
            crate::model::ChannelKind::Direct => SendTarget::Private,
            _ => SendTarget::Group,
        }),
{
    match kind {
        crate::model::ChannelKind::Direct => SendTarget::Private,
        crate::model::ChannelKind::Group | crate::model::ChannelKind::Channel => SendTarget::Group,
    }
}

/// The kind of the single segment that carries a forward bundle.
pub open spec fn forward_kind() -> Seq<char> {
    "onebot_v11_forward"@
}

/// The data of a forward bundle, when the message is exactly one unknown segment of the
/// forward kind.
pub fn forward_bundle_data(segments: &Vec<KernelSegment>) -> (r: Option<&serde_json::Value>)
    ensures
        r is Some <==> (segments@.len() == 1 && (segments@[0] matches KernelSegment::Unknown { kind, .. }
            && kind@ == forward_kind())),
        r matches Some(d) ==> (segments@[0] matches KernelSegment::Unknown { data, .. } && data == *d),
{
    if segments.len() != 1 {
        return None;
    }
    match &segments[0] {
        KernelSegment::Unknown { kind, data } => {
            if str_equal(kind.as_str(), "onebot_v11_forward") {
                Some(data)
            } else {
                None
            }
        },
        _ => None,
    }
}

/// The parameter that names the receiver of a forward bundle: the user for a private chat,
/// the group otherwise (the bundle's nodes go under `messages`).
pub fn forward_target_param(target: SendTarget) -> (r: String)
    ensures
        r@ == (match target {
            SendTarget::Private => "user_id"@,
            SendTarget::Group => "group_id"@,
        }),
{
    match target {
        SendTarget::Private => owned("user_id"),
        SendTarget::Group => owned("group_id"),
    }
}

/// The action that sends a forward bundle to `target`.
pub fn forward_action_name(target: SendTarget) -> (r: String)
    ensures
        r@ == (match target {
            SendTarget::Private => "send_private_forward_msg"@,
            SendTarget::Group => "send_group_forward_msg"@,
        }),
{
    match target {
        SendTarget::Private => owned("send_private_forward_msg"),
        SendTarget::Group => owned("send_group_forward_msg"),
    }
}

/// The action that sends `message` to the chat `id` of `target`.
pub fn send_message_action(target: SendTarget, id: i64, message: Message) -> (r: OneBotAction)
    ensures
        r == (match target {
            SendTarget::Private => OneBotAction::SendPrivateMsg { user_id: id, message },
            SendTarget::Group => OneBotAction::SendGroupMsg { group_id: id, message },
        }),
{
    match target {
        SendTarget::Private => OneBotAction::SendPrivateMsg { user_id: id, message },
        SendTarget::Group => OneBotAction::SendGroupMsg { group_id: id, message },
    }
}

/// The chat id a channel id names, read as an `i64`.
pub fn target_id(channel_id: &str) -> (r: Result<i64, String>)
    ensures
        r is Ok <==> (crate::text::int_text_value(channel_id@) matches Some(v) && i64::MIN <= v
            <= i64::MAX),
        r matches Ok(n) ==> crate::text::int_text_value(channel_id@) == Some(n as int),
{
    crate::text::parse_i64_text(channel_id)
}

/// The echo of a response-mapped request sent by the outbound sender.
pub fn sender_echo(action: &str, seq: u64) -> (r: String)
    ensures
        r@ == "ayiou-sender:"@ + action@ + ":"@ + decimal_spec(seq as nat),
{
    let mut echo = owned("ayiou-sender:");
    echo.push_str(action);
    echo.push_str(":");
    echo.push_str(decimal(seq).as_str());
    echo
}

/// The echo of a response-mapped request sent while handling a user's message.
pub fn context_echo(action: &str, user_id: &str, seq: u64) -> (r: String)
    ensures
        r@ == "ayiou:"@ + action@ + ":"@ + user_id@ + ":"@ + decimal_spec(seq as nat),
{
    let mut echo = owned("ayiou:");
    echo.push_str(action);
    echo.push_str(":");
    echo.push_str(user_id);
    echo.push_str(":");
    echo.push_str(decimal(seq).as_str());
    echo
}

/// The adapter that turns OneBot v11 message events into platform-neutral events.
#[derive(Debug, Default)]
pub struct OnebotAdapter;

impl OnebotAdapter {
    pub fn new() -> (r: Self) {
        OnebotAdapter
    }

    /// The adapter's name.
    pub fn name(&self) -> (r: &'static str)
        ensures
            r@ == "onebot_v11"@,
    {
        "onebot_v11"
    }

    /// The event for a received message: from `user_id`, in `group_id` when it was sent in a
    /// group, with its raw text and the raw payload.
    pub fn message_event(&self, user_id: i64, group_id: Option<i64>, raw_message: &str, raw: &str) -> (r:
        Event)
        ensures
            r.name@ == "onebot.message"@,
            r.platform@ == "onebot_v11"@,
            r.user_id.deep_view() == Some(signed_decimal_spec(user_id as int)),
            r.group_id.deep_view() == (match group_id {
                Some(g) => Some(signed_decimal_spec(g as int)),
                None => None,
            }),
            r.message.deep_view() == Some(raw_message@),
            r.raw@ == raw@,
    {
        let user = signed_decimal(user_id);
        let event = Event::new("onebot.message", self.name()).user_id(user.as_str()).message(
            raw_message,
        ).raw(raw);
        match group_id {
            Some(g) => {
                let group = signed_decimal(g);
                event.group_id(group.as_str())
            },
            None => event,
        }
    }
}

/// An event delivered by the OneBot implementation.
#[derive(Debug)]
pub enum OneBotEvent {
    Message(Box<MessageEvent>),
    Notice(NoticeEvent),
    Request(RequestEvent),
    Meta(MetaEvent),
}

/// A received message, private or in a group.
#[derive(Debug)]
pub enum MessageEvent {
    Private(Box<PrivateMessageEvent>),
    Group(Box<GroupMessageEvent>),
}

#[derive(Debug)]
pub struct PrivateMessageEvent {
    pub time: i64,
    pub self_id: i64,
    /// `friend`, `group` or `other`.
    pub sub_type: String,
    pub message_id: i32,
    pub user_id: i64,
    pub message: Message,
    pub raw_message: String,
    pub font: i32,
    pub sender: PrivateSender,
}

#[derive(Debug)]
pub struct GroupMessageEvent {
    pub time: i64,
    pub self_id: i64,
    /// `normal`, `anonymous` or `notice`.
    pub sub_type: String,
    pub message_id: i32,
    pub group_name: String,
    pub group_id: i64,
    pub user_id: i64,
    pub anonymous: Option<Anonymous>,
    pub message: Message,
    pub raw_message: String,
    pub font: i32,
    pub sender: GroupSender,
}

/// A notice: something happened in a group or to a friend.
#[derive(Debug, Clone)]
pub enum NoticeEvent {
    GroupUpload(GroupUploadNoticeEvent),
    GroupAdmin(GroupAdminNoticeEvent),
    GroupDecrease(GroupDecreaseNoticeEvent),
    GroupIncrease(GroupIncreaseNoticeEvent),
    GroupBan(GroupBanNoticeEvent),
    FriendAdd(FriendAddNoticeEvent),
    GroupRecall(GroupRecallNoticeEvent),
    FriendRecall(FriendRecallNoticeEvent),
    GroupCard(GroupCardNoticeEvent),
    OfflineFile(OfflineFileNoticeEvent),
    ClientStatus(ClientStatusNoticeEvent),
    Essence(EssenceNoticeEvent),
    Notify(NotifyEvent),
    /// A notice type this library does not know.
    Unknown,
}

#[derive(Debug, Clone)]
pub struct GroupUploadNoticeEvent {
    pub time: i64,
    pub self_id: i64,
    pub group_id: i64,
    pub user_id: i64,
    pub file: File,
}

#[derive(Debug, Clone)]
pub struct GroupAdminNoticeEvent {
    pub time: i64,
    pub self_id: i64,
    /// `set` or `unset`.
    pub sub_type: String,
    pub group_id: i64,
    pub user_id: i64,
}

#[derive(Debug, Clone)]
pub struct GroupDecreaseNoticeEvent {
    pub time: i64,
    pub self_id: i64,
    /// `leave`, `kick` or `kick_me`.
    pub sub_type: String,
    pub group_id: i64,
    pub operator_id: i64,
    pub user_id: i64,
}

#[derive(Debug, Clone)]
pub struct GroupIncreaseNoticeEvent {
    pub time: i64,
    pub self_id: i64,
    /// `approve` or `invite`.
    pub sub_type: String,
    pub group_id: i64,
    pub operator_id: i64,
    pub user_id: i64,
}

#[derive(Debug, Clone)]
pub struct GroupBanNoticeEvent {
    pub time: i64,
    pub self_id: i64,
    /// `ban` or `lift_ban`.
    pub sub_type: String,
    pub group_id: i64,
    pub operator_id: i64,
    pub user_id: i64,
    pub duration: i64,
}

#[derive(Debug, Clone)]
pub struct FriendAddNoticeEvent {
    pub time: i64,
    pub self_id: i64,
    pub user_id: i64,
}

#[derive(Debug, Clone)]
pub struct GroupRecallNoticeEvent {
    pub time: i64,
    pub self_id: i64,
    pub group_id: i64,
    pub user_id: i64,
    pub operator_id: i64,
    pub message_id: i32,
}

#[derive(Debug, Clone)]
pub struct FriendRecallNoticeEvent {
    pub time: i64,
    pub self_id: i64,
    pub user_id: i64,
    pub message_id: i32,
}

/// A notification inside a group.
#[derive(Debug, Clone)]
pub enum NotifyEvent {
    Poke(PokeNotifyEvent),
    LuckyKing(LuckyKingNotifyEvent),
    Honor(HonorNotifyEvent),
    Title(TitleNotifyEvent),
    /// A notification this library does not know.
    Unknown,
}

#[derive(Debug, Clone)]
pub struct PokeNotifyEvent {
    pub time: i64,
    pub self_id: i64,
    pub group_id: Option<i64>,
    pub user_id: i64,
    pub target_id: i64,
}

#[derive(Debug, Clone)]
pub struct LuckyKingNotifyEvent {
    pub time: i64,
    pub self_id: i64,
    pub group_id: i64,
    pub user_id: i64,
    pub target_id: i64,
}

#[derive(Debug, Clone)]
pub struct HonorNotifyEvent {
    pub time: i64,
    pub self_id: i64,
    pub group_id: i64,
    /// `talkative`, `performer` or `emotion`.
    pub honor_type: String,
    pub user_id: i64,
}

/// A member's group title changed.
#[derive(Debug, Clone)]
pub struct TitleNotifyEvent {
    pub time: i64,
    pub self_id: i64,
    pub group_id: i64,
    pub user_id: i64,
    pub title: String,
}

/// A member's group card (nickname) changed.
#[derive(Debug, Clone)]
pub struct GroupCardNoticeEvent {
    pub time: i64,
    pub self_id: i64,
    pub group_id: i64,
    pub user_id: i64,
    pub card_new: String,
    pub card_old: String,
}

/// A file was received offline.
#[derive(Debug, Clone)]
pub struct OfflineFileNoticeEvent {
    pub time: i64,
    pub self_id: i64,
    pub user_id: i64,
    pub file: OfflineFile,
}

#[derive(Debug, Clone)]
pub struct OfflineFile {
    pub name: String,
    pub size: i64,
    pub url: String,
}

/// Another client of the account went on- or offline.
#[derive(Debug, Clone)]
pub struct ClientStatusNoticeEvent {
    pub time: i64,
    pub self_id: i64,
    pub online: bool,
    pub client: ClientDevice,
}

#[derive(Debug, Clone)]
pub struct ClientDevice {
    pub app_id: i64,
    pub device_name: String,
    pub device_kind: String,
}

/// A message was added to or removed from a group's essence messages.
#[derive(Debug, Clone)]
pub struct EssenceNoticeEvent {
    pub time: i64,
    pub self_id: i64,
    /// `add` or `delete`.
    pub sub_type: String,
    pub group_id: i64,
    pub sender_id: i64,
    pub operator_id: i64,
    pub message_id: i64,
}

/// A friend or group request.
#[derive(Debug, Clone)]
pub enum RequestEvent {
    Friend(FriendRequestEvent),
    Group(GroupRequestEvent),
}

#[derive(Debug, Clone)]
pub struct FriendRequestEvent {
    pub time: i64,
    pub self_id: i64,
    pub user_id: i64,
    pub comment: String,
    pub flag: String,
}

#[derive(Debug, Clone)]
pub struct GroupRequestEvent {
    pub time: i64,
    pub self_id: i64,
    /// `add` or `invite`.
    pub sub_type: String,
    pub group_id: i64,
    pub user_id: i64,
    pub comment: String,
    pub flag: String,
}

/// An event about the connection itself.
#[derive(Debug, Clone)]
pub enum MetaEvent {
    Lifecycle(LifecycleMetaEvent),
    Heartbeat(HeartbeatMetaEvent),
}

#[derive(Debug, Clone)]
pub struct LifecycleMetaEvent {
    pub time: i64,
    pub self_id: i64,
    /// `enable`, `disable` or `connect`.
    pub sub_type: String,
}

#[derive(Debug, Clone)]
pub struct HeartbeatMetaEvent {
    pub time: i64,
    pub self_id: i64,
    pub status: HeartbeatStatus,
    pub interval: i64,
}

#[derive(Debug, Clone)]
pub struct HeartbeatStatus {
    pub online: bool,
    pub good: bool,
}

#[derive(Debug, Clone)]
pub struct PrivateSender {
    pub user_id: i64,
    pub nickname: String,
    /// `male`, `female` or `unknown`.
    pub sex: Option<String>,
    pub age: Option<i32>,
}

#[derive(Debug, Clone)]
pub struct GroupSender {
    pub user_id: i64,
    pub nickname: String,
    pub card: Option<String>,
    pub sex: Option<String>,
    pub age: Option<i32>,
    pub area: Option<String>,
    pub level: Option<String>,
    /// `owner`, `admin` or `member`.
    pub role: Option<String>,
    pub title: Option<String>,
}

#[derive(Debug, Clone)]
pub struct Anonymous {
    pub id: i64,
    pub name: String,
    pub flag: String,
}

#[derive(Debug, Clone)]
pub struct File {
    pub id: String,
    pub name: String,
    pub size: i64,
    pub busid: i64,
}

/// The data of a send answer.
#[derive(Debug, Clone)]
pub struct SendMessageData {
    pub message_id: i64,
}

#[derive(Debug, Clone)]
pub struct GroupInfoData {
    pub group_id: i64,
    pub group_name: String,
    pub member_count: Option<i32>,
    pub max_member_count: Option<i32>,
}

#[derive(Debug, Clone)]
pub struct GroupMemberInfoData {
    pub group_id: i64,
    pub user_id: i64,
    pub nickname: String,
    pub card: Option<String>,
    pub sex: Option<String>,
    pub age: Option<i32>,
    pub area: Option<String>,
    pub join_time: Option<i64>,
    pub last_sent_time: Option<i64>,
    pub level: Option<String>,
    pub role: Option<String>,
    pub unfriendly: Option<bool>,
    pub title: Option<String>,
    pub title_expire_time: Option<i64>,
    pub card_changeable: Option<bool>,
}

/// The name a sender is shown under in a group: the group card when it has one, else the
/// nickname.
pub fn display_name(sender: &GroupSender) -> (r: &str)
    ensures
        r@ == (match sender.card {
            Some(c) => c@,
            None => sender.nickname@,
        }),
{
    match &sender.card {
        Some(c) => c.as_str(),
        None => sender.nickname.as_str(),
    }
}

} // verus!
