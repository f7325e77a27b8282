//! Runtime services: a registry of shared service objects keyed by their type.
use vstd::prelude::*;

use std::any::TypeId;
use std::sync::Arc;

use crate::sorting::{StrKey, lemma_sort_by_key, sort_by_key, sort_by_str_key, sorted_by_key};
use crate::text::chars_of;

verus! {

/// `std::any::TypeId`, an opaque identifier of a type.
#[verifier::external_type_specification]
#[verifier::external_body]
pub struct ExTypeId(TypeId);

/// `Clone` of a `TypeId` yields the same identifier (the type is `Copy`).
pub assume_specification[ <TypeId as Clone>::clone ](t: &TypeId) -> (r: TypeId)
    ensures
        r == *t,
;

/// `TypeId::of`; nothing is promised of the identifier it returns.
pub assume_specification<T: ?Sized + 'static>[ TypeId::of::<T> ]() -> TypeId;

/// A printable label for the type `T`: the debug form of its `TypeId` (nothing is promised of it).
#[verifier::external_body]
fn type_label_of<T: ?Sized + 'static>() -> String {
    format!("{:?}", TypeId::of::<T>())
}

/// Compares two type identifiers with `==`: they are equal exactly when they are the same value.
#[verifier::external_body]
pub(crate) fn type_id_eq(a: TypeId, b: TypeId) -> (r: bool)
    ensures
        r == (a == b),
{
    a == b
}

/// A service that plugins can request from the host.
pub trait RuntimeService: Send + Sync + 'static {
    fn name(&self) -> &'static str;

    fn version(&self) -> &'static str {
        "0.1.0"
    }
}

/// Identifies a service by its type.
#[derive(Clone, Debug, PartialEq, Eq, Hash)]
pub struct ServiceKey {
    type_id: TypeId,
    type_label: String,
}

impl ServiceKey {
    pub closed spec fn spec_type_id(&self) -> TypeId {
        self.type_id
    }

    pub closed spec fn spec_type_label(&self) -> Seq<char> {
        self.type_label@
    }

    pub fn of<S: RuntimeService>() -> (r: Self) {
        ServiceKey { type_id: TypeId::of::<S>(), type_label: type_label_of::<S>() }
    }

    /// A copy of this key.
    pub fn copy(&self) -> (r: Self)
        ensures
            r == *self,
    {
        ServiceKey { type_id: self.type_id, type_label: self.type_label.clone() }
    }

    pub fn type_id(&self) -> (r: TypeId)
        ensures
            r == self.spec_type_id(),
    {
        self.type_id
    }

    pub fn type_label(&self) -> (r: &str)
        ensures
            r@ == self.spec_type_label(),
    {
        self.type_label.as_str()
    }

    /// Whether two keys name the same type.
    pub fn same(&self, other: &ServiceKey) -> (r: bool)
        ensures
            r == (self.spec_type_id() == other.spec_type_id()),
    {
        type_id_eq(self.type_id, other.type_id)
    }
}

/// What the registry reports about a registered service.
#[derive(Clone, Debug, PartialEq, Eq)]
pub struct ServiceDescriptor {
    pub key: ServiceKey,
    pub name: &'static str,
    pub version: &'static str,
}

impl StrKey for ServiceDescriptor {
    open spec fn spec_key(&self) -> Seq<char> {
        self.key.spec_type_label()
    }

    fn key_chars(&self) -> (r: Vec<char>) {
        chars_of(self.key.type_label())
    }
}

impl ServiceDescriptor {
    pub fn of<S: RuntimeService>(service: &S) -> (r: Self) {
        ServiceDescriptor { key: ServiceKey::of::<S>(), name: service.name(), version: service.version() }
    }
}

fn copy_descriptor(d: &ServiceDescriptor) -> (r: ServiceDescriptor)
    ensures
        r == *d,
{
    ServiceDescriptor { key: d.key.copy(), name: d.name, version: d.version }
}

/// A shared, type-erased service object. Verus does not take `Arc<dyn Any + Send + Sync>` (a
/// trait object of several traits), so the handle is opaque to it.
#[verifier::external_body]
pub struct ServiceHandle {
    inner: Arc<dyn std::any::Any + Send + Sync>,
}

/// Wraps a service in a shared handle (`Arc::new`).
#[verifier::external_body]
fn erase_service<S: RuntimeService>(service: S) -> ServiceHandle {
    ServiceHandle { inner: Arc::new(service) }
}

/// Another handle to the same service (`Arc::clone`).
#[verifier::external_body]
fn share_handle(handle: &ServiceHandle) -> ServiceHandle {
    ServiceHandle { inner: handle.inner.clone() }
}

/// Recovers the concrete service behind a handle with `Arc::downcast`; whether it succeeds
/// depends on the stored value's type, which nothing here states.
#[verifier::external_body]
fn downcast_service<S: RuntimeService>(handle: &ServiceHandle) -> Option<Arc<S>> {
    handle.inner.clone().downcast::<S>().ok()
}

struct RegisteredService {
    descriptor: ServiceDescriptor,
    service: ServiceHandle,
}

/// Registered services, at most one per type.
pub struct ServiceRegistry {
    services: Vec<RegisteredService>,
}

/// The registry's descriptors are keyed by distinct types.
pub open spec fn distinct_types(ds: Seq<ServiceDescriptor>) -> bool {
    forall|a: int, b: int|
        0 <= a < ds.len() && 0 <= b < ds.len() && a != b ==> #[trigger] ds[a].key.spec_type_id()
            != #[trigger] ds[b].key.spec_type_id()
}

/// Some descriptor in `ds` is keyed by the type of `d`.
pub open spec fn has_type_of(ds: Seq<ServiceDescriptor>, d: ServiceDescriptor) -> bool {
    exists|i: int| 0 <= i < ds.len() && #[trigger] ds[i].key.spec_type_id() == d.key.spec_type_id()
}

/// `after` is `before` with `d` in place of the descriptor of its type, or with `d` added at
/// the end where its type had none.
pub open spec fn replaced_or_added(
    before: Seq<ServiceDescriptor>,
    after: Seq<ServiceDescriptor>,
    d: ServiceDescriptor,
) -> bool {
    if has_type_of(before, d) {
        exists|i: int|
            0 <= i < before.len() && before[i].key.spec_type_id() == d.key.spec_type_id() && after
                == before.update(i, d)
    } else {
        after == before.push(d)
    }
}

/// The error for a service type registered twice.
pub open spec fn already_registered_message(label: Seq<char>) -> Seq<char> {
    "runtime service `"@ + label + "` is already registered"@
}

/// The error for a service type that is not registered.
pub open spec fn not_registered_message(label: Seq<char>) -> Seq<char> {
    "runtime service `"@ + label + "` is not registered"@
}

impl ServiceRegistry {
    /// The descriptors of the registered services, in registration order.
    pub closed spec fn spec_descriptors(&self) -> Seq<ServiceDescriptor> {
        self.services@.map_values(|r: RegisteredService| r.descriptor)
    }

    #[verifier::type_invariant]
    closed spec fn wf(&self) -> bool {
        distinct_types(self.spec_descriptors())
    }

    /// The registered service types.
    pub open spec fn spec_has(&self, key: ServiceKey) -> bool {
        exists|i: int| 0 <= i < self.spec_descriptors().len() && #[trigger] self.spec_descriptors()[i].key.spec_type_id() == key.spec_type_id()
    }

    pub fn new() -> (r: Self)
        ensures
            r.spec_descriptors().len() == 0,
    {
        let r = ServiceRegistry { services: Vec::new() };
        assert(r.spec_descriptors() =~= Seq::<ServiceDescriptor>::empty());
        r
    }

    fn index_of(&self, key: &ServiceKey) -> (r: Option<usize>)
        ensures
            r matches Some(i) ==> i < self.spec_descriptors().len() && self.spec_descriptors()[i as int].key.spec_type_id() == key.spec_type_id(),
            r is None <==> !self.spec_has(*key),
    {
        let mut i: usize = 0;
        while i < self.services.len()
            invariant
                i <= self.services@.len(),
                forall|j: int| 0 <= j < i ==> #[trigger] self.spec_descriptors()[j].key.spec_type_id() != key.spec_type_id(),
            decreases self.services.len() - i,
        {
            if self.services[i].descriptor.key.same(key) {
                assert(self.spec_descriptors()[i as int] == self.services@[i as int].descriptor);
                return Some(i);
            }
            assert(self.spec_descriptors()[i as int] == self.services@[i as int].descriptor);
            i = i + 1;
        }
        None
    }

    /// Stores a service under `descriptor`'s key, replacing the service of that type if any.
    pub fn insert_with_descriptor(&mut self, descriptor: ServiceDescriptor, service: ServiceHandle)
        ensures
            replaced_or_added(old(self).spec_descriptors(), final(self).spec_descriptors(), descriptor),
            final(self).spec_has(descriptor.key),
            forall|k: ServiceKey| #[trigger] final(self).spec_has(k) <==> old(self).spec_has(k) || k.spec_type_id() == descriptor.key.spec_type_id(),
            forall|i: int| 0 <= i < final(self).spec_descriptors().len() ==> (#[trigger] final(self).spec_descriptors()[i] == descriptor
                || (final(self).spec_descriptors()[i].key.spec_type_id() != descriptor.key.spec_type_id()
                    && old(self).spec_descriptors().contains(final(self).spec_descriptors()[i]))),
            forall|i: int| 0 <= i < old(self).spec_descriptors().len() && #[trigger] old(self).spec_descriptors()[i].key.spec_type_id() != descriptor.key.spec_type_id()
                ==> final(self).spec_descriptors().contains(old(self).spec_descriptors()[i]),
    {
        proof {
            use_type_invariant(&*self);
        }
        let ghost old_d = self.spec_descriptors();
        let mut services: Vec<RegisteredService> = Vec::new();
        std::mem::swap(&mut services, &mut self.services);
        let probe = ServiceRegistry { services };
        let found = probe.index_of(&descriptor.key);
        let mut services = probe.services;
        let ghost dk = descriptor;
        let ghost mut pos: int = 0;
        match found {
            Some(i) => {
                proof {
                    pos = i as int;
                }
                services.set(i, RegisteredService { descriptor, service });
                proof {
                    let nd = services@.map_values(|r: RegisteredService| r.descriptor);
                    assert(nd =~= old_d.update(i as int, dk));
                    assert(has_type_of(old_d, dk));
                    assert(replaced_or_added(old_d, nd, dk));
                }
            },
            None => {
                proof {
                    pos = old_d.len() as int;
                }
                services.push(RegisteredService { descriptor, service });
                proof {
                    let nd = services@.map_values(|r: RegisteredService| r.descriptor);
                    assert(nd =~= old_d.push(dk));
                    assert(!has_type_of(old_d, dk));
                    assert(replaced_or_added(old_d, nd, dk));
                }
            },
        }
        self.services = services;
        proof {
            let nd = self.spec_descriptors();
            assert(nd[pos] == dk);
            assert(nd[pos].key.spec_type_id() == dk.key.spec_type_id());
            assert(self.spec_has(dk.key));
            assert forall|i: int| 0 <= i < old_d.len() && #[trigger] old_d[i].key.spec_type_id() != dk.key.spec_type_id()
                implies nd.contains(old_d[i]) by {
                assert(nd[i] == old_d[i]);
            }
            assert forall|k: ServiceKey| #[trigger] self.spec_has(k) <==> (exists|i: int| 0 <= i < old_d.len() && #[trigger] old_d[i].key.spec_type_id() == k.spec_type_id()) || k.spec_type_id() == dk.key.spec_type_id() by {
                if self.spec_has(k) {
                    let i = choose|i: int| 0 <= i < nd.len() && #[trigger] nd[i].key.spec_type_id() == k.spec_type_id();
                    if nd[i] != dk {
                        assert(old_d[i] == nd[i]);
                    }
                }
                if exists|i: int| 0 <= i < old_d.len() && #[trigger] old_d[i].key.spec_type_id() == k.spec_type_id() {
                    let i = choose|i: int| 0 <= i < old_d.len() && #[trigger] old_d[i].key.spec_type_id() == k.spec_type_id();
                    if k.spec_type_id() != dk.key.spec_type_id() {
                        assert(nd[i] == old_d[i]);
                    }
                }
            }
        }
    }

    /// Stores `service` under its type, in place of the service of that type if any.
    pub fn insert<S: RuntimeService>(&mut self, service: S)
        ensures
            exists|d: ServiceDescriptor|
                replaced_or_added(old(self).spec_descriptors(), final(self).spec_descriptors(), d),
    {
        let descriptor = ServiceDescriptor::of(&service);
        let ghost d = descriptor;
        self.insert_with_descriptor(descriptor, erase_service(service));
        assert(replaced_or_added(old(self).spec_descriptors(), self.spec_descriptors(), d));
    }

    /// Stores `service` under its type; refused, with nothing changed, where a service of
    /// that type is registered already.
    pub fn try_insert<S: RuntimeService>(&mut self, service: S) -> (r: Result<(), String>)
        ensures
            r is Err ==> final(self).spec_descriptors() == old(self).spec_descriptors(),
            r matches Err(e) ==> exists|k: ServiceKey|
                old(self).spec_has(k) && e@ == already_registered_message(k.spec_type_label()),
            r is Ok ==> exists|d: ServiceDescriptor|
                !old(self).spec_has(d.key) && final(self).spec_descriptors() == old(
                    self,
                ).spec_descriptors().push(d),
    {
        let descriptor = ServiceDescriptor::of(&service);
        if self.contains_key(&descriptor.key) {
            let mut message = String::new();
            message.push_str("runtime service `");
            message.push_str(descriptor.key.type_label());
            message.push_str("` is already registered");
            assert(message@ == already_registered_message(descriptor.key.spec_type_label()));
            return Err(message);
        }
        let ghost d = descriptor;
        proof {
            if has_type_of(self.spec_descriptors(), d) {
                let i = choose|i: int| 0 <= i < self.spec_descriptors().len() && #[trigger] self.spec_descriptors()[i].key.spec_type_id() == d.key.spec_type_id();
                assert(self.spec_has(d.key));
            }
        }
        self.insert_with_descriptor(descriptor, erase_service(service));
        Ok(())
    }

    pub fn contains_key(&self, key: &ServiceKey) -> (r: bool)
        ensures
            r == self.spec_has(*key),
    {
        self.index_of(key).is_some()
    }

    pub fn descriptor<S: RuntimeService>(&self) -> (r: Option<ServiceDescriptor>)
        ensures
            r matches Some(d) ==> self.spec_descriptors().contains(d),
    {
        self.descriptor_for_key(&ServiceKey::of::<S>())
    }

    pub fn descriptor_for_key(&self, key: &ServiceKey) -> (r: Option<ServiceDescriptor>)
        ensures
            r is Some <==> self.spec_has(*key),
            r matches Some(d) ==> self.spec_descriptors().contains(d) && d.key.spec_type_id()
                == key.spec_type_id(),
    {
        match self.index_of(key) {
            Some(i) => {
                let d = copy_descriptor(&self.services[i].descriptor);
                assert(self.spec_descriptors()[i as int] == d);
                Some(d)
            },
            None => None,
        }
    }

    /// The descriptors of all registered services, sorted by type name.
    pub fn descriptors(&self) -> (r: Vec<ServiceDescriptor>)
        ensures
            r@ == sort_by_key(self.spec_descriptors()),
            r@.to_multiset() == self.spec_descriptors().to_multiset(),
            sorted_by_key(r@),
    {
        let mut copy: Vec<ServiceDescriptor> = Vec::new();
        let mut i: usize = 0;
        while i < self.services.len()
            invariant
                i <= self.services@.len(),
                copy@ == self.spec_descriptors().take(i as int),
            decreases self.services.len() - i,
        {
            copy.push(copy_descriptor(&self.services[i].descriptor));
            proof {
                assert(copy@ =~= self.spec_descriptors().take(i as int + 1));
            }
            i = i + 1;
        }
        assert(self.spec_descriptors().take(self.spec_descriptors().len() as int) =~= self.spec_descriptors());
        proof {
            lemma_sort_by_key(copy@);
        }
        sort_by_str_key(copy)
    }

    /// The registered service of type `S`: found among the registered services by its type,
    /// so `None` where nothing is registered.
    pub fn get<S: RuntimeService>(&self) -> (r: Option<Arc<S>>)
        ensures
            r is Some ==> self.spec_descriptors().len() > 0,
    {
        let key = ServiceKey::of::<S>();
        match self.index_of(&key) {
            Some(i) => downcast_service::<S>(&self.services[i].service),
            None => None,
        }
    }

    /// The registered service of type `S`; refused, naming the type, where there is none.
    pub fn require<S: RuntimeService>(&self) -> (r: Result<Arc<S>, String>)
        ensures
            r is Ok ==> self.spec_descriptors().len() > 0,
            r matches Err(e) ==> exists|l: Seq<char>| e@ == not_registered_message(l),
    {
        match self.get::<S>() {
            Some(service) => Ok(service),
            None => {
                let mut message = String::new();
                message.push_str("runtime service `");
                let label = type_label_of::<S>();
                message.push_str(label.as_str());
                message.push_str("` is not registered");
                assert(message@ == not_registered_message(label@));
                Err(message)
            },
        }
    }
}

impl Clone for ServiceRegistry {
    fn clone(&self) -> (r: Self) {
        let mut services: Vec<RegisteredService> = Vec::new();
        let mut i: usize = 0;
        while i < self.services.len()
            invariant
                i <= self.services@.len(),
                services@.map_values(|r: RegisteredService| r.descriptor) == self.spec_descriptors().take(i as int),
            decreases self.services.len() - i,
        {
            proof {
                use_type_invariant(self);
            }
            let d = copy_descriptor(&self.services[i].descriptor);
            let ghost before = services@;
            services.push(RegisteredService { descriptor: d, service: share_handle(&self.services[i].service) });
            proof {
                assert(self.spec_descriptors()[i as int] == self.services@[i as int].descriptor);
                assert(services@.map_values(|r: RegisteredService| r.descriptor) =~= before.map_values(|r: RegisteredService| r.descriptor).push(d));
                assert(services@.map_values(|r: RegisteredService| r.descriptor) =~= self.spec_descriptors().take(i as int + 1));
            }
            i = i + 1;
        }
        proof {
            use_type_invariant(self);
            assert(self.spec_descriptors().take(self.spec_descriptors().len() as int) =~= self.spec_descriptors());
        }
        ServiceRegistry { services }
    }
}

impl Default for ServiceRegistry {
    fn default() -> (r: Self)
        ensures
            r.spec_descriptors().len() == 0,
    {
        ServiceRegistry::new()
    }
}

} // verus!
