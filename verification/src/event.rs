//! A platform-neutral message event and the kinds of message targets.
use vstd::prelude::*;

use crate::text::owned;

verus! {

/// Whom a message goes to.
#[derive(Debug, Clone, Copy, PartialEq, Eq)]
pub enum TargetType {
    Private,
    Group,
    Channel,
}

/// A message event: its kind, platform, user, group, text, and raw payload.
#[derive(Debug, Clone)]
pub struct Event {
    /// The event kind, such as "console.message".
    pub name: String,
    /// The platform, such as "console".
    pub platform: String,
    pub user_id: Option<String>,
    /// `None` for a private message.
    pub group_id: Option<String>,
    pub message: Option<String>,
    /// The raw payload (a JSON text or the like).
    pub raw: String,
}

impl Event {
    pub fn new(name: &str, platform: &str) -> (r: Self)
        ensures
            r.name@ == name@,
            r.platform@ == platform@,
            r.user_id is None,
            r.group_id is None,
            r.message is None,
            r.raw@.len() == 0,
    {
        Event {
            name: owned(name),
            platform: owned(platform),
            user_id: None,
            group_id: None,
            message: None,
            raw: String::new(),
        }
    }

    pub fn user_id(self, id: &str) -> (r: Self)
        ensures
            r == (Event { user_id: r.user_id, ..self }),
            r.user_id.deep_view() == Some(id@),
    {
        Event { user_id: Some(owned(id)), ..self }
    }

    pub fn group_id(self, id: &str) -> (r: Self)
        ensures
            r == (Event { group_id: r.group_id, ..self }),
            r.group_id.deep_view() == Some(id@),
    {
        Event { group_id: Some(owned(id)), ..self }
    }

    pub fn message(self, msg: &str) -> (r: Self)
        ensures
            r == (Event { message: r.message, ..self }),
            r.message.deep_view() == Some(msg@),
    {
        Event { message: Some(owned(msg)), ..self }
    }

    pub fn raw(self, raw: &str) -> (r: Self)
        ensures
            r == (Event { raw: r.raw, ..self }),
            r.raw@ == raw@,
    {
        Event { raw: owned(raw), ..self }
    }
}

} // verus!
