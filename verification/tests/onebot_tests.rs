use ayiou::model::{ChannelKind, MessageSegment as KernelSegment};
use ayiou::onebot::{
    context_echo, display_name, format_message, forward_action_name, forward_bundle_data,
    forward_target_param,
    preview_segments, send_message_action, send_target, sender_echo, target_id,
    to_kernel_segment, to_onebot_forward_nodes, to_onebot_message, ActionParam, ApiResponse,
    ForwardNode, GroupSender, LoginInfoData, Message, MessageSegment, NodeData, OneBotAction,
    OnebotAdapter, SendTarget,
};

fn text(t: &str) -> MessageSegment {
    MessageSegment::Text { text: t.to_string() }
}

fn object(key: &str, value: serde_json::Value) -> serde_json::Value {
    let mut fields = serde_json::Map::new();
    fields.insert(key.to_string(), value);
    serde_json::Value::Object(fields)
}

#[test]
fn api_response_check_err() {
    let resp = ApiResponse {
        status: "failed".to_string(),
        retcode: 1400,
        data: object("msg", serde_json::Value::from("bad request")),
        echo: None,
    };

    let err = resp.ensure_ok("send_group_msg").unwrap_err();
    assert!(err.contains("send_group_msg"));
}

#[test]
fn ensure_ok_accepts_only_status_ok_with_code_zero() {
    let ok = ApiResponse { status: "ok".to_string(), retcode: 0, data: serde_json::Value::Null, echo: None };
    assert!(ok.is_ok());
    assert!(ok.ensure_ok("get_login_info").is_ok());
    let odd = ApiResponse { status: "ok".to_string(), retcode: 100, data: serde_json::Value::Null, echo: None };
    assert_eq!(
        odd.ensure_ok("delete_msg").unwrap_err(),
        "OneBot action `delete_msg` failed: status=ok, retcode=100, data=null"
    );
    let neg = ApiResponse { status: "async".to_string(), retcode: -1, data: serde_json::Value::from(3), echo: None };
    assert_eq!(
        neg.ensure_ok("x").unwrap_err(),
        "OneBot action `x` failed: status=async, retcode=-1, data=3"
    );
}

#[test]
fn previews_name_each_segment() {
    let segs = vec![
        text("hi "),
        MessageSegment::At { qq: "42".to_string() },
        MessageSegment::Face { id: "1".to_string() },
        MessageSegment::Image { file: "a.png".to_string(), image_type: None, url: None },
        MessageSegment::Contact { contact_type: "qq".to_string(), id: "9".to_string() },
        MessageSegment::Unknown,
    ];
    assert_eq!(preview_segments(&segs), "hi [@42][表情:1][图片][推荐qq:9][未知消息]");
    let mut buf = String::from(">");
    MessageSegment::Reply { id: "7".to_string() }.write_preview(&mut buf);
    assert_eq!(buf, ">[回复:7]");
}

#[test]
fn formatted_messages_are_quoted() {
    assert_eq!(format_message(&Message::String("a\"b".to_string())), "\"a\\\"b\"");
    assert_eq!(format_message(&Message::Segment(MessageSegment::Dice)), "\"[骰子]\"");
    assert_eq!(format_message(&Message::Array(vec![text("x"), MessageSegment::Rps])), "\"x[猜拳]\"");
}

#[test]
fn kernel_segments_become_onebot_messages() {
    let empty = to_onebot_message(vec![KernelSegment::Unknown { kind: "k".to_string(), data: serde_json::Value::Null }]);
    assert!(matches!(empty, Message::String(ref s) if s.is_empty()));

    let one = to_onebot_message(vec![KernelSegment::Mention { user_id: "5".to_string() }]);
    assert!(matches!(one, Message::Segment(MessageSegment::At { ref qq }) if qq == "5"));

    let many = to_onebot_message(vec![
        KernelSegment::Text { text: "a".to_string() },
        KernelSegment::Image { url: "http://i".to_string() },
        KernelSegment::Attachment { name: None, url: None, mime: None },
    ]);
    match many {
        Message::Array(segs) => {
            assert_eq!(segs.len(), 3);
            assert!(matches!(&segs[0], MessageSegment::Text { text } if text == "a"));
            assert!(matches!(&segs[1], MessageSegment::Image { file, image_type: None, url: None } if file == "http://i"));
            assert!(matches!(&segs[2], MessageSegment::Record { file, magic: None, url: None } if file.is_empty()));
        }
        other => panic!("expected a list, got {other:?}"),
    }
}

#[test]
fn forward_nodes_use_the_login_identity_when_known() {
    let node = || ForwardNode { user_id: 1, nickname: "alice".to_string(), content: vec![KernelSegment::Text { text: "t".to_string() }] };
    let profile = LoginInfoData { user_id: 99, nickname: "bot".to_string() };
    let with = to_onebot_forward_nodes(vec![node()], Some(&profile));
    assert!(matches!(&with[0], MessageSegment::Node { data: NodeData::Custom { user_id: 99, nickname, .. } } if nickname == "bot"));
    let without = to_onebot_forward_nodes(vec![node(), node()], None);
    assert_eq!(without.len(), 2);
    assert!(matches!(&without[1], MessageSegment::Node { data: NodeData::Custom { user_id: 1, nickname, .. } } if nickname == "alice"));
}

#[test]
fn received_segments_map_to_kernel_segments() {
    assert!(matches!(to_kernel_segment(&text("x")), Some(KernelSegment::Text { text }) if text == "x"));
    let img = MessageSegment::Image { file: "f".to_string(), image_type: None, url: Some("u".to_string()) };
    assert!(matches!(to_kernel_segment(&img), Some(KernelSegment::Image { url }) if url == "u"));
    let video = MessageSegment::Video { file: "v.mp4".to_string(), url: None };
    assert!(matches!(to_kernel_segment(&video), Some(KernelSegment::Attachment { name: None, url: Some(u), mime: None }) if u == "v.mp4"));
    assert!(to_kernel_segment(&MessageSegment::Shake).is_none());
}

#[test]
fn requests_list_parameters_by_name() {
    let req = OneBotAction::SetGroupBan { group_id: 10, user_id: 20, duration: 60 }.into_request();
    assert_eq!(req.action, "set_group_ban");
    assert!(req.echo.is_none());
    let names: Vec<&str> = req.params.iter().map(|(n, _)| n.as_str()).collect();
    assert_eq!(names, vec!["group_id", "user_id", "duration"]);
    assert!(matches!(req.params[2].1, ActionParam::Int(60)));

    let send = send_message_action(SendTarget::Group, 5, Message::String("hi".to_string())).into_request();
    assert_eq!(send.action, "send_group_msg");
    assert!(matches!(send.params[0].1, ActionParam::Int(5)));
    assert!(matches!(&send.params[1].1, ActionParam::Message(Message::String(s)) if s == "hi"));

    let info = OneBotAction::GetLoginInfo.into_request();
    assert_eq!(info.action, "get_login_info");
    assert!(info.params.is_empty());
}

#[test]
fn targets_and_echoes() {
    assert_eq!(send_target(ChannelKind::Direct), SendTarget::Private);
    assert_eq!(send_target(ChannelKind::Channel), SendTarget::Group);
    assert_eq!(forward_action_name(SendTarget::Private), "send_private_forward_msg");
    assert_eq!(target_id("-12").unwrap(), -12);
    assert!(target_id("12a").is_err());
    assert_eq!(sender_echo("send_msg", 3), "ayiou-sender:send_msg:3");
    assert_eq!(context_echo("get_group_info", "u1", 10), "ayiou:get_group_info:u1:10");
}

#[test]
fn forward_bundles_are_single_forward_segments() {
    let bundle = vec![KernelSegment::Unknown { kind: "onebot_v11_forward".to_string(), data: serde_json::Value::from(1) }];
    assert_eq!(forward_bundle_data(&bundle), Some(&serde_json::Value::from(1)));
    let other = vec![KernelSegment::Unknown { kind: "other".to_string(), data: serde_json::Value::Null }];
    assert!(forward_bundle_data(&other).is_none());
    assert!(forward_bundle_data(&Vec::new()).is_none());
}

#[test]
fn message_events_carry_ids_as_text() {
    let adapter = OnebotAdapter::new();
    assert_eq!(adapter.name(), "onebot_v11");
    let ev = adapter.message_event(7, Some(-3), "hello", "{}");
    assert_eq!(ev.user_id.as_deref(), Some("7"));
    assert_eq!(ev.group_id.as_deref(), Some("-3"));
    assert_eq!(ev.message.as_deref(), Some("hello"));
    let private = adapter.message_event(7, None, "x", "{}");
    assert!(private.group_id.is_none());
}

#[test]
fn group_display_name_prefers_the_card() {
    let mut sender = GroupSender {
        user_id: 1,
        nickname: "nick".to_string(),
        card: Some("card".to_string()),
        sex: None,
        age: None,
        area: None,
        level: None,
        role: None,
        title: None,
    };
    assert_eq!(display_name(&sender), "card");
    sender.card = None;
    assert_eq!(display_name(&sender), "nick");
}

#[test]
fn private_messages_carry_the_message_given() {
    let req = OneBotAction::SendPrivateMsg { user_id: 7, message: Message::String("hello".to_string()) }
        .into_request();
    assert_eq!(req.action, "send_private_msg");
    assert_eq!(req.params.len(), 2);
    assert!(matches!(req.params[0].1, ActionParam::Int(7)));
    assert!(matches!(&req.params[1].1, ActionParam::Message(Message::String(s)) if s == "hello"));
}

#[test]
fn forward_bundles_name_their_receiver() {
    assert_eq!(forward_target_param(SendTarget::Private), "user_id");
    assert_eq!(forward_target_param(SendTarget::Group), "group_id");
}
