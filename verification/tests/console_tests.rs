use ayiou::console::{console_capabilities, console_envelope, console_event, console_line, render_console};
use ayiou::model::{ChannelKind, MessageSegment};
use ayiou::plugin::Capability;

#[test]
fn console_renders_each_segment_kind() {
    let segs = vec![
        MessageSegment::Text { text: "hi".to_string() },
        MessageSegment::Mention { user_id: "42".to_string() },
        MessageSegment::Image { url: "u".to_string() },
        MessageSegment::Attachment { name: None, url: None, mime: None },
        MessageSegment::Attachment { name: Some("a.txt".to_string()), url: None, mime: None },
        MessageSegment::Unknown { kind: "poke".to_string(), data: serde_json::Value::Null },
    ];
    assert_eq!(render_console(&segs), "hi @42 [image:u] [attachment:unnamed] [attachment:a.txt] [poke]");
    let mention_first = vec![MessageSegment::Mention { user_id: "7".to_string() }, MessageSegment::Text { text: "x".to_string() }];
    assert_eq!(render_console(&mention_first), "@7x");
    assert_eq!(render_console(&Vec::new()), "");
}

#[test]
fn blank_console_lines_are_dropped() {
    assert_eq!(console_line("  /echo hi "), Some("  /echo hi ".to_string()));
    assert_eq!(console_line(" \t "), None);
    assert_eq!(console_line(""), None);
}

#[test]
fn console_lines_become_direct_messages() {
    let env = console_envelope("  hello  ");
    assert_eq!(env.bot_id.as_str(), "console");
    let msg = env.message().unwrap();
    assert_eq!(msg.text, "hello");
    assert_eq!(msg.sender.user_id(), "console-user");
    assert_eq!(msg.channel.kind(), ChannelKind::Direct);
    assert_eq!(msg.channel.channel_id(), "console-user");

    let ev = console_event("raw text");
    assert_eq!(ev.name, "console.message");
    assert_eq!(ev.user_id.as_deref(), Some("console_user"));
    assert_eq!(ev.raw, "raw text");
    assert_eq!(console_capabilities(), vec![Capability::ProactiveSend, Capability::Custom("console".to_string())]);
}
