//! Shared resources of an application, one per type, handed out by type.
use vstd::prelude::*;

use std::any::TypeId;

use crate::service::type_id_eq;

verus! {

/// A type-erased resource. Verus does not take `Box<dyn Any + Send + Sync>` (a trait object of
/// several traits), so the box is opaque to it.
#[verifier::external_body]
pub struct ResourceBox {
    inner: Box<dyn std::any::Any + Send + Sync>,
}

/// Boxes a resource (`Box::new`).
#[verifier::external_body]
fn box_resource<R: Send + Sync + 'static>(resource: R) -> ResourceBox {
    ResourceBox { inner: Box::new(resource) }
}

/// The resource behind a box, seen as `R` (`downcast_ref`); `None` when it is of another type.
#[verifier::external_body]
fn resource_ref<R: 'static>(b: &ResourceBox) -> Option<&R> {
    b.inner.downcast_ref::<R>()
}

/// The resource behind a box, seen as `R` for change (`downcast_mut`); `None` when it is of
/// another type.
#[verifier::external_body]
fn resource_mut<R: 'static>(b: &mut ResourceBox) -> Option<&mut R> {
    b.inner.downcast_mut::<R>()
}

/// The resource out of its box, as `R` (`Box::downcast`); `None` when it is of another type.
#[verifier::external_body]
fn unbox_resource<R: 'static>(b: ResourceBox) -> Option<R> {
    match b.inner.downcast::<R>() {
        Ok(r) => Some(*r),
        Err(_) => None,
    }
}

/// Resources by type: at most one per type.
pub struct ResourceRegistry {
    ids: Vec<TypeId>,
    boxes: Vec<ResourceBox>,
}

impl ResourceRegistry {
    /// The types that have a resource, in the order they first got one.
    pub closed spec fn spec_ids(&self) -> Seq<TypeId> {
        self.ids@
    }

    #[verifier::type_invariant]
    closed spec fn wf(&self) -> bool {
        &&& self.ids@.len() == self.boxes@.len()
        &&& forall|a: int, b: int| 0 <= a < b < self.ids@.len() ==> self.ids@[a] != self.ids@[b]
    }

    pub fn new() -> (r: Self)
        ensures
            r.spec_ids().len() == 0,
    {
        ResourceRegistry { ids: Vec::new(), boxes: Vec::new() }
    }

    fn position(&self, id: TypeId) -> (r: Option<usize>)
        ensures
            r matches Some(i) ==> i < self.spec_ids().len() && self.spec_ids()[i as int] == id,
            r is None ==> !self.spec_ids().contains(id),
    {
        let mut i: usize = 0;
        while i < self.ids.len()
            invariant
                i <= self.ids@.len(),
                forall|j: int| 0 <= j < i ==> self.ids@[j] != id,
            decreases self.ids.len() - i,
        {
            if type_id_eq(self.ids[i], id) {
                return Some(i);
            }
            i = i + 1;
        }
        None
    }

    /// Whether a resource of the type `id` is held.
    pub fn contains_id(&self, id: TypeId) -> (r: bool)
        ensures
            r == self.spec_ids().contains(id),
    {
        self.position(id).is_some()
    }

    /// Puts `resource` under type `id`, in place of the one that type had.
    pub fn insert_boxed(&mut self, id: TypeId, resource: ResourceBox)
        ensures
            final(self).spec_ids() == (if old(self).spec_ids().contains(id) {
                old(self).spec_ids()
            } else {
                old(self).spec_ids().push(id)
            }),
    {
        proof {
            use_type_invariant(&*self);
        }
        match self.position(id) {
            Some(i) => {
                let mut taken = ResourceRegistry::new();
                std::mem::swap(&mut taken, self);
                let ResourceRegistry { ids, mut boxes } = taken;
                boxes.remove(i);
                boxes.insert(i, resource);
                *self = ResourceRegistry { ids, boxes };
            },
            None => {
                let mut taken = ResourceRegistry::new();
                std::mem::swap(&mut taken, self);
                let ResourceRegistry { mut ids, mut boxes } = taken;
                let ghost old_ids = ids@;
                ids.push(id);
                boxes.push(resource);
                assert forall|a: int, b: int| 0 <= a < b < ids@.len() implies ids@[a] != ids@[b] by {
                    if b == ids@.len() - 1 {
                        assert(old_ids[a] != id);
                    }
                }
                *self = ResourceRegistry { ids, boxes };
            },
        }
    }

    /// Puts `resource` under its type, in place of the one that type had.
    pub fn insert<R: Send + Sync + 'static>(&mut self, resource: R)
        ensures
            exists|id: TypeId|
                final(self).spec_ids() == (if old(self).spec_ids().contains(id) {
                    old(self).spec_ids()
                } else {
                    old(self).spec_ids().push(id)
                }),
    {
        let id = TypeId::of::<R>();
        self.insert_boxed(id, box_resource(resource));
    }

    /// The resource of type `R`.
    pub fn get<R: 'static>(&self) -> (r: Option<&R>)
        ensures
            r is Some ==> self.spec_ids().len() > 0,
    {
        proof {
            use_type_invariant(self);
        }
        match self.position(TypeId::of::<R>()) {
            Some(i) => resource_ref::<R>(&self.boxes[i]),
            None => None,
        }
    }

    /// The resource of type `R`, for change.
    pub fn get_mut<R: 'static>(&mut self) -> (r: Option<&mut R>)
        ensures
            final(self).spec_ids() == old(self).spec_ids(),
            r is Some ==> old(self).spec_ids().len() > 0,
    {
        proof {
            use_type_invariant(&*self);
        }
        match self.position(TypeId::of::<R>()) {
            Some(i) => resource_mut::<R>(&mut self.boxes[i]),
            None => None,
        }
    }

    /// Whether a resource of type `R` is held.
    pub fn contains<R: 'static>(&self) -> (r: bool)
        ensures
            r ==> self.spec_ids().len() > 0,
    {
        self.contains_id(TypeId::of::<R>())
    }

    /// Takes the resource of type `R` out.
    pub fn remove<R: 'static>(&mut self) -> (r: Option<R>)
        ensures
            final(self).spec_ids().len() <= old(self).spec_ids().len(),
            forall|id: TypeId|
                #[trigger] final(self).spec_ids().contains(id) ==> old(self).spec_ids().contains(id),
            final(self).spec_ids() == old(self).spec_ids() || exists|i: int|
                0 <= i < old(self).spec_ids().len() && final(self).spec_ids() == old(
                    self,
                ).spec_ids().remove(i),
            r is Some ==> exists|i: int|
                0 <= i < old(self).spec_ids().len() && final(self).spec_ids() == old(
                    self,
                ).spec_ids().remove(i),
    {
        proof {
            use_type_invariant(&*self);
        }
        match self.position(TypeId::of::<R>()) {
            Some(i) => {
                let mut taken = ResourceRegistry::new();
                std::mem::swap(&mut taken, self);
                let ResourceRegistry { mut ids, mut boxes } = taken;
                let ghost old_ids = ids@;
                ids.remove(i);
                assert(ids@ == old_ids.remove(i as int));
                let b = boxes.remove(i);
                assert forall|a: int, c: int| 0 <= a < c < ids@.len() implies ids@[a] != ids@[c] by {
                    let ia = if a < i { a } else { a + 1 };
                    let ic = if c < i { c } else { c + 1 };
                    assert(ids@[a] == old_ids[ia] && ids@[c] == old_ids[ic]);
                }
                assert forall|id: TypeId| #[trigger] ids@.contains(id) implies old_ids.contains(id) by {
                    let j = choose|j: int| 0 <= j < ids@.len() && ids@[j] == id;
                    let oj = if j < i { j } else { j + 1 };
                    assert(old_ids[oj] == id);
                }
                *self = ResourceRegistry { ids, boxes };
                unbox_resource::<R>(b)
            },
            None => None,
        }
    }
}

impl Default for ResourceRegistry {
    fn default() -> (r: Self)
        ensures
            r.spec_ids().len() == 0,
    {
        ResourceRegistry::new()
    }
}

} // verus!
