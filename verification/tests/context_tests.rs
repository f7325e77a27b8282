use ayiou::context::{event_group_id, event_text, event_user_id, no_sender_message, reply_message};
use ayiou::model::{ChannelKind, ChannelRef, EventEnvelope, MessageEvent, MessageSegment, UserRef};

fn group_event() -> EventEnvelope {
    let message = MessageEvent::new(UserRef::new("qq", "u1"), ChannelRef::group("qq", "g9"), "/ping");
    EventEnvelope::new("bot", "qq").with_message(message)
}

#[test]
fn contexts_read_text_user_and_group() {
    let ev = group_event();
    assert_eq!(event_text(&ev), "/ping");
    assert_eq!(event_user_id(&ev), "u1");
    assert_eq!(event_group_id(&ev), Some("g9"));

    let direct = EventEnvelope::new("bot", "qq")
        .with_message(MessageEvent::new(UserRef::new("qq", "u2"), ChannelRef::direct("qq", "u2"), "hi"));
    assert_eq!(event_group_id(&direct), None);

    let empty = EventEnvelope::new("bot", "qq");
    assert_eq!(event_text(&empty), "");
    assert_eq!(event_user_id(&empty), "");
    assert_eq!(event_group_id(&empty), None);
}

#[test]
fn replies_go_back_to_the_channel() {
    let reply = reply_message(&group_event(), "pong").unwrap();
    assert_eq!(reply.target.kind(), ChannelKind::Group);
    assert_eq!(reply.target.channel_id(), "g9");
    assert_eq!(reply.segments, vec![MessageSegment::Text { text: "pong".to_string() }]);
    assert_eq!(
        reply_message(&EventEnvelope::new("bot", "qq"), "x").unwrap_err(),
        "current event does not carry a message context"
    );
    assert_eq!(no_sender_message(), "adapter does not provide proactive message sending");
}
