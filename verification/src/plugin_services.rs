//! What the host hands a plugin when it initialises: the sender and permission service, its
//! identity, the platform's capabilities, and the registered services.
use vstd::prelude::*;

use std::sync::Arc;

use crate::engine::{offered_capabilities, provided_capabilities};
use crate::model::{BotId, PlatformId};
use crate::plugin::{cap_views, Capability};
use crate::service::{not_registered_message, RuntimeService, ServiceDescriptor, ServiceRegistry};
use crate::text::owned;

verus! {

/// The host's services for one plugin instance. `S` is the sender type and `P` the
/// permission service type of the host.
pub struct RuntimePluginServices<S, P> {
    sender: Option<S>,
    permission_service: Option<P>,
    pub instance_id: Option<String>,
    pub bot_id: Option<BotId>,
    pub platform: Option<PlatformId>,
    pub capabilities: Vec<Capability>,
    pub service_registry: ServiceRegistry,
}

impl<S, P> RuntimePluginServices<S, P> {
    /// Whether a sender is attached.
    pub closed spec fn spec_has_sender(&self) -> bool {
        self.sender is Some
    }

    /// The sender, if one is attached.
    pub closed spec fn spec_sender(&self) -> Option<S> {
        self.sender
    }

    /// The permission service, if one is attached.
    pub closed spec fn spec_permission_service(&self) -> Option<P> {
        self.permission_service
    }

    pub closed spec fn spec_instance_id(&self) -> Option<String> {
        self.instance_id
    }

    pub closed spec fn spec_bot_id(&self) -> Option<BotId> {
        self.bot_id
    }

    pub closed spec fn spec_platform(&self) -> Option<PlatformId> {
        self.platform
    }

    pub closed spec fn spec_capabilities(&self) -> Vec<Capability> {
        self.capabilities
    }

    pub closed spec fn spec_registry(&self) -> ServiceRegistry {
        self.service_registry
    }

    /// No sender, no permission service, no identity, no capabilities, no services.
    pub fn new() -> (r: Self)
        ensures
            r.spec_sender() is None,
            r.spec_permission_service() is None,
            r.spec_instance_id() is None,
            r.spec_bot_id() is None,
            r.spec_platform() is None,
            r.spec_capabilities()@.len() == 0,
            r.spec_registry().spec_descriptors().len() == 0,
    {
        RuntimePluginServices {
            sender: None,
            permission_service: None,
            instance_id: None,
            bot_id: None,
            platform: None,
            capabilities: Vec::new(),
            service_registry: ServiceRegistry::new(),
        }
    }

    /// The same services with `sender` attached (or none).
    pub fn with_sender(self, sender: Option<S>) -> (r: Self)
        ensures
            r.spec_sender() == sender,
            r.spec_permission_service() == self.spec_permission_service(),
            r.spec_instance_id() == self.spec_instance_id(),
            r.spec_bot_id() == self.spec_bot_id(),
            r.spec_platform() == self.spec_platform(),
            r.spec_capabilities() == self.spec_capabilities(),
            r.spec_registry() == self.spec_registry(),
    {
        RuntimePluginServices { sender, ..self }
    }

    /// The same services with `service` as the permission service (or none).
    pub fn with_permission_service(self, service: Option<P>) -> (r: Self)
        ensures
            r.spec_sender() == self.spec_sender(),
            r.spec_permission_service() == service,
            r.spec_instance_id() == self.spec_instance_id(),
            r.spec_bot_id() == self.spec_bot_id(),
            r.spec_platform() == self.spec_platform(),
            r.spec_capabilities() == self.spec_capabilities(),
            r.spec_registry() == self.spec_registry(),
    {
        RuntimePluginServices { permission_service: service, ..self }
    }

    /// The permission service, if one is attached.
    pub fn permission_checker(&self) -> (r: Option<&P>)
        ensures
            r is Some <==> self.spec_permission_service() is Some,
            r matches Some(p) ==> self.spec_permission_service() == Some(*p),
    {
        match &self.permission_service {
            Some(p) => Some(p),
            None => None,
        }
    }

    /// The sender, if one is attached.
    pub fn sender(&self) -> (r: Option<&S>)
        ensures
            r is Some <==> self.spec_has_sender(),
            r matches Some(s) ==> self.spec_sender() == Some(*s),
    {
        match &self.sender {
            Some(s) => Some(s),
            None => None,
        }
    }

    /// The sender; refused when the adapter cannot send on its own.
    pub fn require_sender(&self) -> (r: Result<&S, String>)
        ensures
            r is Ok <==> self.spec_has_sender(),
            r matches Ok(s) ==> self.spec_sender() == Some(*s),
            r matches Err(msg) ==> msg@ == "adapter does not provide proactive message sending"@,
    {
        match &self.sender {
            Some(s) => Ok(s),
            None => Err(owned("adapter does not provide proactive message sending")),
        }
    }

    /// The same services for the instance `instance_id`.
    pub fn with_instance_id(self, instance_id: &str) -> (r: Self)
        ensures
            r.spec_instance_id().deep_view() == Some(instance_id@),
            r.spec_sender() == self.spec_sender(),
            r.spec_permission_service() == self.spec_permission_service(),
            r.spec_bot_id() == self.spec_bot_id(),
            r.spec_platform() == self.spec_platform(),
            r.spec_capabilities() == self.spec_capabilities(),
            r.spec_registry() == self.spec_registry(),
    {
        RuntimePluginServices { instance_id: Some(owned(instance_id)), ..self }
    }

    /// The same services for the bot `bot_id` on `platform`.
    pub fn with_identity(self, bot_id: &str, platform: &str) -> (r: Self)
        ensures
            r.spec_bot_id() matches Some(b) && b.spec_str() == bot_id@,
            r.spec_platform() matches Some(p) && p.spec_str() == platform@,
            r.spec_sender() == self.spec_sender(),
            r.spec_permission_service() == self.spec_permission_service(),
            r.spec_instance_id() == self.spec_instance_id(),
            r.spec_capabilities() == self.spec_capabilities(),
            r.spec_registry() == self.spec_registry(),
    {
        RuntimePluginServices {
            bot_id: Some(BotId::new(bot_id)),
            platform: Some(PlatformId::new(platform)),
            ..self
        }
    }

    /// The same services on a platform with `capabilities`.
    pub fn with_capabilities(self, capabilities: Vec<Capability>) -> (r: Self)
        ensures
            r.spec_capabilities() == capabilities,
            r.spec_sender() == self.spec_sender(),
            r.spec_permission_service() == self.spec_permission_service(),
            r.spec_instance_id() == self.spec_instance_id(),
            r.spec_bot_id() == self.spec_bot_id(),
            r.spec_platform() == self.spec_platform(),
            r.spec_registry() == self.spec_registry(),
    {
        RuntimePluginServices { capabilities, ..self }
    }

    /// The same services with `service_registry` as the registered services.
    pub fn with_service_registry(self, service_registry: ServiceRegistry) -> (r: Self)
        ensures
            r.spec_registry() == service_registry,
            r.spec_sender() == self.spec_sender(),
            r.spec_permission_service() == self.spec_permission_service(),
            r.spec_instance_id() == self.spec_instance_id(),
            r.spec_bot_id() == self.spec_bot_id(),
            r.spec_platform() == self.spec_platform(),
            r.spec_capabilities() == self.spec_capabilities(),
    {
        RuntimePluginServices { service_registry, ..self }
    }

    /// The registered service of type `T`.
    pub fn service<T: RuntimeService>(&self) -> (r: Option<Arc<T>>)
        ensures
            r is Some ==> self.spec_registry().spec_descriptors().len() > 0,
    {
        self.service_registry.get::<T>()
    }

    /// The registered service of type `T`; refused when there is none.
    pub fn require_service<T: RuntimeService>(&self) -> (r: Result<Arc<T>, String>)
        ensures
            r is Ok ==> self.spec_registry().spec_descriptors().len() > 0,
            r matches Err(e) ==> exists|l: Seq<char>| e@ == not_registered_message(l),
    {
        self.service_registry.require::<T>()
    }

    /// The descriptor of the registered service of type `T`.
    pub fn service_descriptor<T: RuntimeService>(&self) -> (r: Option<ServiceDescriptor>)
        ensures
            r matches Some(d) ==> self.spec_registry().spec_descriptors().contains(d),
    {
        self.service_registry.descriptor::<T>()
    }

    /// The descriptors of all registered services, sorted by type.
    pub fn service_descriptors(&self) -> (r: Vec<ServiceDescriptor>)
        ensures
            r@ == crate::sorting::sort_by_key(self.spec_registry().spec_descriptors()),
    {
        self.service_registry.descriptors()
    }

    /// The capabilities the plugin can use: the platform's, and sending on its own when a
    /// sender is attached.
    pub fn provided_capabilities(&self) -> (r: Vec<Capability>)
        ensures
            cap_views(r@) == offered_capabilities(cap_views(self.spec_capabilities()@), self.spec_has_sender()),
    {
        provided_capabilities(&self.capabilities, self.sender.is_some())
    }
}

} // verus!
