//! Remove tags, by key or by label, each within one unit of work.

use vstd::prelude::*;
use crate::error::{UseCaseError, lift};
use crate::interface::{
    ContentTagInterface,
    RepositoryProviderInterface,
    Storage,
    TagInterface,
    UnitOfWorkInterface,
    engine_reliable,
};
use crate::rules::cascades;
use crate::tables::{Tables, label_removed, tag_removed};

verus! {

/// The operations on tags, over the storage of `provider`.
#[derive(Clone)]
pub struct TagUseCases<P: RepositoryProviderInterface> {
    provider: P,
}

impl<P: RepositoryProviderInterface> TagUseCases<P> {
    /// The provider whose storage these operations work on.
    pub closed spec fn storage(&self) -> P {
        self.provider
    }

    /// The durable state of the storage.
    pub open spec fn tables(&self) -> Tables {
        self.storage().tables()
    }

    /// Operations on the storage of `provider`.
    pub fn new(provider: P) -> (cases: Self)
        ensures
            cases.storage() == provider,
    {
        Self { provider }
    }

    /// The provider, to read the storage.
    pub fn provider(&self) -> (provider: &P)
        ensures
            *provider == self.storage(),
    {
        &self.provider
    }

    /// The provider, to hand the storage on.
    pub fn into_provider(self) -> (provider: P)
        ensures
            provider == self.storage(),
    {
        self.provider
    }

    /// Removes the tag `id` and its associations, in one unit of work, and
    /// returns how many tag rows went: 1, or 0 where there was no such tag,
    /// which is no failure. On a failure nothing of the call stays in the
    /// storage.
    pub fn remove(&mut self, id: i64) -> (r: Result<u64, UseCaseError>)
        ensures
            engine_reliable::<P>() ==> r is Ok,
            match r {
                Ok(count) => tag_removed(old(self).tables(), final(self).tables(), id, count),
                Err(e) => e is Storage && final(self).tables() == old(self).tables(),
            },
    {
        let mut uow = lift(self.provider.begin())?;
        let count = lift(uow.tag().delete(id))?;
        if cascades(count) {
            let _ = lift(uow.content_tag().delete_by_tag_id(id))?;
        }
        proof {
            let before = self.provider.tables();
            if before.tags.dom().contains(id) {
                assert(uow.tables() =~= before.without_tag(id));
            } else {
                assert(uow.tables() =~= before);
            }
        }
        lift(uow.commit(&mut self.provider))?;
        Ok(count)
    }

    /// Removes a tag that carries `label`, and its associations, in one unit
    /// of work, and returns how many tag rows went: 1, or 0 where no tag
    /// carries the label, which is no failure and writes nothing. On a failure
    /// nothing of the call stays in the storage.
    pub fn remove_label(&mut self, label: String) -> (r: Result<u64, UseCaseError>)
        ensures
            engine_reliable::<P>() ==> r is Ok,
            match r {
                Ok(count) => label_removed(old(self).tables(), final(self).tables(), label@, count),
                Err(e) => e is Storage && final(self).tables() == old(self).tables(),
            },
    {
        let mut uow = lift(self.provider.begin())?;
        let tag_entity = lift(uow.tag().find_by_label(label.as_str()))?;
        if let Some(tag) = tag_entity {
            let count = lift(uow.tag().delete(tag.id))?;
            if cascades(count) {
                let _ = lift(uow.content_tag().delete_by_tag_id(tag.id))?;
            }
            proof {
                let before = self.provider.tables();
                assert(before.tags.contains_pair(tag.id, label@));
                assert(uow.tables() =~= before.without_tag(tag.id));
            }
            lift(uow.commit(&mut self.provider))?;
            Ok(count)
        } else {
            Ok(0)
        }
    }
}

} // verus!
