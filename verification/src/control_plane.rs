//! The decisions of the HTTP control plane: its options, who is authorized, how a failed plugin
//! action is reported, and the names that plugin snapshots are shown with.
use vstd::prelude::*;

use crate::plugin::{Capability, CapabilityView, ConfigLifecycleState, PluginLifecycleState};
use crate::service::ServiceKey;
use crate::text::{contains_seq, owned, str_contains, str_equal};

verus! {

/// Where the control plane listens and the token it expects.
#[derive(Clone, Debug)]
pub struct ControlPlaneOptions {
    bind: String,
    token: Option<String>,
}

impl ControlPlaneOptions {
    pub closed spec fn spec_bind(&self) -> Seq<char> {
        self.bind@
    }

    pub closed spec fn spec_token(&self) -> Option<Seq<char>> {
        self.token.deep_view()
    }

    /// Listens on 127.0.0.1:32187, with no token.
    pub fn new() -> (r: Self)
        ensures
            r.spec_bind() == "127.0.0.1:32187"@,
            r.spec_token() is None,
    {
        ControlPlaneOptions { bind: owned("127.0.0.1:32187"), token: None }
    }

    pub fn bind(self, bind: &str) -> (r: Self)
        ensures
            r.spec_bind() == bind@,
            r.spec_token() == self.spec_token(),
    {
        ControlPlaneOptions { bind: owned(bind), ..self }
    }

    pub fn token(self, token: &str) -> (r: Self)
        ensures
            r.spec_bind() == self.spec_bind(),
            r.spec_token() == Some(token@),
    {
        ControlPlaneOptions { token: Some(owned(token)), ..self }
    }

    /// The address to listen on, as written.
    pub fn bind_text(&self) -> (r: &str)
        ensures
            r@ == self.spec_bind(),
    {
        self.bind.as_str()
    }

    pub fn token_value(&self) -> (r: Option<&str>)
        ensures
            r is Some <==> self.spec_token() is Some,
            r matches Some(t) ==> self.spec_token() == Some(t@),
    {
        match &self.token {
            Some(t) => Some(t.as_str()),
            None => None,
        }
    }

    /// The token the control plane needs before it starts.
    pub fn required_token(&self) -> (r: Result<String, String>)
        ensures
            r matches Ok(t) ==> self.spec_token() == Some(t@),
            r matches Err(msg) ==> self.spec_token() is None && msg@ == "control plane token is required"@,
            r is Ok <==> self.spec_token() is Some,
    {
        match &self.token {
            Some(t) => Ok(t.clone()),
            None => Err(owned("control plane token is required")),
        }
    }
}

impl Default for ControlPlaneOptions {
    fn default() -> (r: Self)
        ensures
            r.spec_bind() == "127.0.0.1:32187"@,
            r.spec_token() is None,
    {
        ControlPlaneOptions::new()
    }
}

/// An error answer of the control plane: its HTTP status, code and message.
#[derive(Clone, Debug, PartialEq, Eq)]
pub struct ApiError {
    pub status: u16,
    pub code: String,
    pub message: String,
}

fn api_error(status: u16, code: &str, message: &str) -> (r: ApiError)
    ensures
        r.status == status,
        r.code@ == code@,
        r.message@ == message@,
{
    ApiError { status, code: owned(code), message: owned(message) }
}

/// A request is authorized when its `Authorization` header is `Bearer ` and the token.
pub open spec fn authorized(authorization: Option<Seq<char>>, token: Seq<char>) -> bool {
    authorization == Some("Bearer "@ + token)
}

/// Lets a request through only with the bearer token; otherwise answers 401.
pub fn authorize(authorization: Option<&str>, token: &str) -> (r: Result<(), ApiError>)
    ensures
        r is Ok <==> authorized(
            match authorization {
                Some(a) => Some(a@),
                None => None,
            },
            token@,
        ),
        r matches Err(e) ==> e.status == 401 && e.code@ == "unauthorized"@ && e.message@
            == "valid bearer token required"@,
{
    let mut expected = owned("Bearer ");
    expected.push_str(token);
    let ok = match authorization {
        Some(a) => str_equal(a, expected.as_str()),
        None => false,
    };
    if ok {
        Ok(())
    } else {
        Err(api_error(401, "unauthorized", "valid bearer token required"))
    }
}

/// How a failed plugin action is reported: a plugin that cannot be reloaded, one that is not
/// registered (404), or any other failure; the message is the error's own.
pub open spec fn action_error_code(message: Seq<char>) -> Seq<char> {
    if contains_seq(message, "not reloadable"@) {
        "not_reloadable"@
    } else if contains_seq(message, "not registered"@) {
        "not_found"@
    } else {
        "operation_failed"@
    }
}

/// The answer to a plugin action that failed with `message`.
pub fn action_error(message: &str) -> (r: ApiError)
    ensures
        r.code@ == action_error_code(message@),
        r.status == (if r.code@ == "not_found"@ {
            404u16
        } else {
            400u16
        }),
        r.message@ == message@,
{
    if str_contains(message, "not reloadable") {
        proof {
            reveal_strlit("not_found");
            reveal_strlit("not_reloadable");
        }
        api_error(400, "not_reloadable", message)
    } else if str_contains(message, "not registered") {
        proof {
            reveal_strlit("not_found");
        }
        api_error(404, "not_found", message)
    } else {
        proof {
            reveal_strlit("not_found");
            reveal_strlit("operation_failed");
        }
        api_error(400, "operation_failed", message)
    }
}

/// The answer when no plugin has instance id `id`.
pub fn plugin_not_found(id: &str) -> (r: ApiError)
    ensures
        r.status == 404,
        r.code@ == "not_found"@,
        r.message@ == "plugin `"@ + id@ + "` was not found"@,
{
    let mut message = owned("plugin `");
    message.push_str(id);
    message.push_str("` was not found");
    ApiError { status: 404, code: owned("not_found"), message }
}

/// How a capability is named in snapshots.
pub open spec fn capability_name_spec(c: CapabilityView) -> Seq<char> {
    match c {
        CapabilityView::ProactiveSend => "proactive_send"@,
        CapabilityView::MessageDelete => "message_delete"@,
        CapabilityView::Reaction => "reaction"@,
        CapabilityView::GroupModeration => "group_moderation"@,
        CapabilityView::RichSegments => "rich_segments"@,
        CapabilityView::Custom(name) => name,
    }
}

pub fn capability_name(capability: &Capability) -> (r: String)
    ensures
        r@ == capability_name_spec(capability@),
{
    match capability {
        Capability::ProactiveSend => owned("proactive_send"),
        Capability::MessageDelete => owned("message_delete"),
        Capability::Reaction => owned("reaction"),
        Capability::GroupModeration => owned("group_moderation"),
        Capability::RichSegments => owned("rich_segments"),
        Capability::Custom(name) => name.clone(),
    }
}

/// How a service is named in snapshots: by its type.
pub fn service_key_name(key: &ServiceKey) -> (r: String)
    ensures
        r@ == key.spec_type_label(),
{
    owned(key.type_label())
}

/// The name of a lifecycle state, as its debug form writes it.
pub fn lifecycle_state_name(state: PluginLifecycleState) -> (r: String)
    ensures
        r@ == match state {
            PluginLifecycleState::Registered => "Registered"@,
            PluginLifecycleState::Initializing => "Initializing"@,
            PluginLifecycleState::Starting => "Starting"@,
            PluginLifecycleState::Running => "Running"@,
            PluginLifecycleState::Stopping => "Stopping"@,
            PluginLifecycleState::Stopped => "Stopped"@,
            PluginLifecycleState::Failed => "Failed"@,
        },
{
    match state {
        PluginLifecycleState::Registered => owned("Registered"),
        PluginLifecycleState::Initializing => owned("Initializing"),
        PluginLifecycleState::Starting => owned("Starting"),
        PluginLifecycleState::Running => owned("Running"),
        PluginLifecycleState::Stopping => owned("Stopping"),
        PluginLifecycleState::Stopped => owned("Stopped"),
        PluginLifecycleState::Failed => owned("Failed"),
    }
}

/// The name of a configuration state, as its debug form writes it.
pub fn config_state_name(state: ConfigLifecycleState) -> (r: String)
    ensures
        r@ == match state {
            ConfigLifecycleState::Draft => "Draft"@,
            ConfigLifecycleState::Validated => "Validated"@,
            ConfigLifecycleState::Applied => "Applied"@,
            ConfigLifecycleState::Rejected => "Rejected"@,
        },
{
    match state {
        ConfigLifecycleState::Draft => owned("Draft"),
        ConfigLifecycleState::Validated => owned("Validated"),
        ConfigLifecycleState::Applied => owned("Applied"),
        ConfigLifecycleState::Rejected => owned("Rejected"),
    }
}

/// A token-protected request is let through exactly with the right header; a missing or
/// different header is refused with 401.
pub proof fn law_only_the_token_opens(token: Seq<char>, other: Seq<char>)
    requires
        other != "Bearer "@ + token,
    ensures
        authorized(Some("Bearer "@ + token), token),
        !authorized(Some(other), token),
        !authorized(None, token),
{
}

} // verus!
