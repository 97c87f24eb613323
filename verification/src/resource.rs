use vstd::prelude::*;

verus! {

/// Why a resource could not satisfy a demand.
pub enum GenericResourceError {
    NotEnoughResource,
}

/// A pooled resource: a capacity of `total_amount` units, of which
/// `free_amount` are still unclaimed.
pub struct GenericResource {
    pub name: String,
    pub blocking: bool,
    pub total_amount: u64,
    pub free_amount: u64,
    pub id: String,
}

impl GenericResource {
    /// Amount bounds: the free part of the pool never exceeds its capacity.
    pub open spec fn wf(self) -> bool {
        self.free_amount <= self.total_amount
    }

    /// Builds a resource from an already-drawn id; the pool starts full.
    pub fn with_id(name: String, total_amount: u64, blocking: bool, id: String) -> (r: Self)
        ensures
            r.name == name,
            r.blocking == blocking,
            r.total_amount == total_amount,
            r.free_amount == total_amount,
            r.id == id,
            r.wf(),
    {
        GenericResource { name, blocking, total_amount, free_amount: total_amount, id }
    }

    /// Creates a resource under a fresh random id; the pool starts full.
    pub fn new(name: String, total_amount: u64, blocking: bool) -> (r: Self)
        ensures
            r.name == name,
            r.blocking == blocking,
            r.total_amount == total_amount,
            r.free_amount == total_amount,
            r.id@.len() == 7,
            r.wf(),
    {
        let id = crate::ids::fresh_id();
        Self::with_id(name, total_amount, blocking, id)
    }

    pub fn id(&self) -> (r: String)
        ensures
            r == self.id,
    {
        self.id.clone()
    }

    pub fn name(&self) -> (r: &str)
        ensures
            r@ == self.name@,
    {
        self.name.as_str()
    }

    pub fn set_name(&mut self, name: String)
        ensures
            *final(self) == (GenericResource { name, ..*old(self) }),
    {
        self.name = name;
    }

    pub fn total_amount(&self) -> (r: u64)
        ensures
            r == self.total_amount,
    {
        self.total_amount
    }

    /// Changes the capacity. When the capacity shrinks below the current
    /// free amount, the free amount is clamped down to the new capacity,
    /// so the amount bounds survive the change.
    pub fn set_total_amount(&mut self, total_amount: u64)
        ensures
            *final(self) == (GenericResource {
                total_amount,
                free_amount: if old(self).free_amount <= total_amount {
                    old(self).free_amount
                } else {
                    total_amount
                },
                ..*old(self)
            }),
            final(self).wf(),
    {
        self.total_amount = total_amount;
        if self.free_amount > total_amount {
            self.free_amount = total_amount;
        }
    }

    pub fn free_amount(&self) -> (r: u64)
        ensures
            r == self.free_amount,
    {
        self.free_amount
    }

    pub fn set_free_amount(&mut self, free_amount: u64)
        requires
            free_amount <= old(self).total_amount,
        ensures
            *final(self) == (GenericResource { free_amount, ..*old(self) }),
            final(self).wf(),
    {
        self.free_amount = free_amount;
    }

    /// Consumes `amount` units from the pool. This is the only consumption
    /// path; nothing ever returns units to the pool.
    pub fn use_resource(&mut self, amount: u64) -> (r: Result<(), GenericResourceError>)
        ensures
            amount <= old(self).free_amount ==> r is Ok && *final(self) == (GenericResource {
                free_amount: (old(self).free_amount - amount) as u64,
                ..*old(self)
            }),
            amount > old(self).free_amount ==> r is Err && *final(self) == *old(self),
            old(self).wf() ==> final(self).wf(),
    {
        if self.free_amount < amount {
            return Err(GenericResourceError::NotEnoughResource);
        }
        let next = self.free_amount - amount;
        self.free_amount = next;
        Ok(())
    }
}

impl Clone for GenericResource {
    fn clone(&self) -> (r: Self)
        ensures
            r == *self,
    {
        GenericResource {
            name: self.name.clone(),
            blocking: self.blocking,
            total_amount: self.total_amount,
            free_amount: self.free_amount,
            id: self.id.clone(),
        }
    }
}

/// Creates a resource snapshot under a fresh id; it is not yet part of
/// any simulation.
pub fn create_resource(name: String, total_amount: u64, blocking: bool) -> (r: GenericResource)
    ensures
        r.name == name,
        r.blocking == blocking,
        r.total_amount == total_amount,
        r.free_amount == total_amount,
        r.wf(),
{
    GenericResource::new(name, total_amount, blocking)
}

pub fn get_resource_name(resource: &GenericResource) -> (r: String)
    ensures
        r@ == resource.name@,
{
    resource.name.clone()
}

pub fn set_resource_name(resource: &mut GenericResource, name: String)
    ensures
        *final(resource) == (GenericResource { name, ..*old(resource) }),
{
    resource.set_name(name);
}

pub fn get_resource_total_amount(resource: &GenericResource) -> (r: u64)
    ensures
        r == resource.total_amount,
{
    resource.total_amount()
}

pub fn set_resource_total_amount(resource: &mut GenericResource, total_amount: u64)
    ensures
        *final(resource) == (GenericResource {
            total_amount,
            free_amount: if old(resource).free_amount <= total_amount {
                old(resource).free_amount
            } else {
                total_amount
            },
            ..*old(resource)
        }),
{
    resource.set_total_amount(total_amount);
}

pub fn get_resource_free_amount(resource: &GenericResource) -> (r: u64)
    ensures
        r == resource.free_amount,
{
    resource.free_amount()
}

} // verus!
