//! The provider and the unit of work of the in-memory engine.

use vstd::prelude::*;
use crate::error::StorageError;
use crate::interface::{
    ContentInterface,
    ContentTagInterface,
    RepositoryProviderInterface,
    Storage,
    TagInterface,
    UnitOfWorkInterface,
};
use crate::memory::content::MemoryContentRepository;
use crate::memory::content_tag::MemoryContentTagRepository;
use crate::memory::tag::MemoryTagRepository;
use crate::tables::Tables;

verus! {

/// The durable tables. A unit of work begins as a copy of them and replaces
/// them when it commits. Units of work that overlap are not merged: the one
/// that commits last replaces what the other committed.
pub struct MemoryProvider {
    contents: MemoryContentRepository,
    tags: MemoryTagRepository,
    links: MemoryContentTagRepository,
}

/// The tables of one transaction.
pub struct MemoryUnitOfWork {
    contents: MemoryContentRepository,
    tags: MemoryTagRepository,
    links: MemoryContentTagRepository,
}

impl MemoryProvider {
    /// Storage without rows.
    pub fn new() -> (provider: Self)
        ensures
            provider.tables() == Tables::empty(),
    {
        Self {
            contents: MemoryContentRepository::new(),
            tags: MemoryTagRepository::new(),
            links: MemoryContentTagRepository::new(),
        }
    }
}

impl Storage for MemoryProvider {
    closed spec fn tables(&self) -> Tables {
        Tables { contents: self.contents.rows(), tags: self.tags.rows(), links: self.links.rows() }
    }
}

impl RepositoryProviderInterface for MemoryProvider {
    type Work = MemoryUnitOfWork;

    open spec fn reliable() -> bool {
        true
    }

    fn begin(&self) -> (r: Result<MemoryUnitOfWork, StorageError>) {
        Ok(
            MemoryUnitOfWork {
                contents: self.contents.duplicate(),
                tags: self.tags.duplicate(),
                links: self.links.duplicate(),
            },
        )
    }
}

impl UnitOfWorkInterface<MemoryProvider> for MemoryUnitOfWork {
    type Contents = MemoryContentRepository;

    type Tags = MemoryTagRepository;

    type ContentTags = MemoryContentTagRepository;

    closed spec fn tables(&self) -> Tables {
        Tables { contents: self.contents.rows(), tags: self.tags.rows(), links: self.links.rows() }
    }

    open spec fn reliable() -> bool {
        true
    }

    fn commit(self, provider: &mut MemoryProvider) -> (r: Result<(), StorageError>) {
        provider.contents = self.contents;
        provider.tags = self.tags;
        provider.links = self.links;
        Ok(())
    }

    fn rollback(self, provider: &mut MemoryProvider) -> (r: Result<(), StorageError>) {
        Ok(())
    }

    fn content(&mut self) -> (repo: &mut MemoryContentRepository) {
        &mut self.contents
    }

    fn tag(&mut self) -> (repo: &mut MemoryTagRepository) {
        &mut self.tags
    }

    fn content_tag(&mut self) -> (repo: &mut MemoryContentTagRepository) {
        &mut self.links
    }
}

} // verus!
