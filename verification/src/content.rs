//! Create, edit and remove content items, each within one unit of work.

use vstd::prelude::*;
use crate::dto::{
    CreateContentRequestDto,
    CreateContentResponseDto,
    EditContentRequestDto,
    label_views,
};
use crate::entity::{ContentEntity, ContentTagEntity, TagEntity, tag_ids, tag_labels};
use crate::error::{StorageError, UseCaseError, lift};
use crate::keys::{keys_free, lemma_keys_free_after_insert, lemma_keys_free_fewer};
use crate::rules::{cascades, found};
use crate::interface::{
    ContentInterface,
    ContentTagInterface,
    RepositoryProviderInterface,
    Storage,
    TagInterface,
    UnitOfWorkInterface,
    engine_reliable,
};
use crate::tables::{
    Tables,
    content_created,
    content_edited,
    content_removed,
    lemma_links_joined_more,
    lemma_resolved_created,
    lemma_resolved_found,
    links_joined,
    tags_resolved,
};

verus! {

/// The operations on content items, over the storage of `provider`.
#[derive(Clone)]
pub struct ContentUseCases<P: RepositoryProviderInterface> {
    provider: P,
}

impl<P: RepositoryProviderInterface> ContentUseCases<P> {
    /// The provider whose storage these operations work on.
    pub closed spec fn storage(&self) -> P {
        self.provider
    }

    /// The durable state of the storage.
    pub open spec fn tables(&self) -> Tables {
        self.storage().tables()
    }

    /// Operations on the storage of `provider`.
    pub fn new(provider: P) -> (cases: Self)
        ensures
            cases.storage() == provider,
    {
        Self { provider }
    }

    /// The provider, to read the storage.
    pub fn provider(&self) -> (provider: &P)
        ensures
            *provider == self.storage(),
    {
        &self.provider
    }

    /// The provider, to hand the storage on.
    pub fn into_provider(self) -> (provider: P)
        ensures
            provider == self.storage(),
    {
        self.provider
    }

    /// Finds the tag of each label, creating it where no row carries the
    /// label, and returns the tags in the order of `tag_entities`. Where it
    /// fails, tags that it created may be in the table: the unit of work is to
    /// be dropped.
    pub fn find_or_create_tags<T: TagInterface>(
        &self,
        tag_repo: &mut T,
        tag_entities: Vec<TagEntity>,
    ) -> (r: Result<Vec<TagEntity>, StorageError>)
        ensures
            T::reliable() ==> r is Ok || r == Err::<Vec<TagEntity>, StorageError>(
                StorageError::Exhausted,
            ),
            T::reliable() && keys_free(old(tag_repo).rows().dom(), tag_entities@.len()) ==> r is Ok,
            r matches Ok(tags) ==> {
                &&& tag_labels(tags@) == tag_labels(tag_entities@)
                &&& tags_resolved(
                    old(tag_repo).rows(),
                    final(tag_repo).rows(),
                    tag_labels(tag_entities@),
                    tag_ids(tags@),
                )
            },
    {
        let ghost before = tag_repo.rows();
        let ghost labels = tag_labels(tag_entities@);
        let ghost count = tag_entities@.len();
        let mut tags: Vec<TagEntity> = Vec::new();
        for tag in rest: tag_entities
            invariant
                before == old(tag_repo).rows(),
                labels == tag_labels(rest.seq()),
                count == rest.seq().len(),
                tags.len() == rest.index(),
                tag_labels(tags@) == labels.subrange(0, rest.index()),
                tags_resolved(
                    before,
                    tag_repo.rows(),
                    labels.subrange(0, rest.index()),
                    tag_ids(tags@),
                ),
                keys_free(before.dom(), count) ==> keys_free(
                    tag_repo.rows().dom(),
                    (count - rest.index()) as nat,
                ),
        {
            let ghost rows = tag_repo.rows();
            let ghost left = (count - rest.index()) as nat;
            let ghost ids = tag_ids(tags@);
            let ghost done = labels.subrange(0, rest.index());
            proof {
                if keys_free(rows.dom(), left) {
                    lemma_keys_free_fewer(rows.dom(), left, 1);
                    lemma_keys_free_fewer(rows.dom(), left, (left - 1) as nat);
                }
            }
            let entity = match tag_repo.find_by_label(tag.label.as_str())? {
                Some(entity) => {
                    proof {
                        lemma_resolved_found(before, rows, done, ids, tag.label@, entity.id);
                    }
                    entity
                },
                None => {
                    let created = tag_repo.create(&tag)?;
                    proof {
                        lemma_resolved_created(before, rows, done, ids, tag.label@, created.id);
                        if keys_free(rows.dom(), left) {
                            lemma_keys_free_after_insert(rows.dom(), created.id, (left - 1) as nat);
                            assert(tag_repo.rows().dom() =~= rows.dom().insert(created.id));
                        }
                    }
                    created
                },
            };
            tags.push(entity);
            proof {
                assert(labels.subrange(0, rest.index() + 1) =~= done.push(tag.label@));
                assert(tag_ids(tags@) =~= ids.push(entity.id));
                assert(tag_labels(tags@) =~= done.push(tag.label@));
            }
        }
        proof {
            assert(labels.subrange(0, count as int) =~= labels);
        }
        Ok(tags)
    }

    /// Associates `content` with each of `tags`, wherever the association does
    /// not exist yet. Content and tag rows stay as they are, whatever comes of
    /// the call; where it fails, the unit of work is to be dropped.
    pub fn link_tags_to_content<U: UnitOfWorkInterface<P>>(
        &self,
        uow: &mut U,
        content: &ContentEntity,
        tags: &[TagEntity],
    ) -> (r: Result<(), StorageError>)
        ensures
            U::ContentTags::reliable() ==> r is Ok,
            final(uow).tables().contents == old(uow).tables().contents,
            final(uow).tables().tags == old(uow).tables().tags,
            r is Ok ==> final(uow).tables().links == links_joined(
                old(uow).tables().links,
                content.id,
                tag_ids(tags@),
            ),
    {
        let ghost before = uow.tables();
        let ghost ids = tag_ids(tags@);
        for tag in rest: tags.iter()
            invariant
                ids == tag_ids(tags@),
                rest.seq().len() == tags@.len(),
                forall|k: int| 0 <= k < tags@.len() ==> *rest.seq()[k] == tags@[k],
                before == old(uow).tables(),
                uow.tables() == (Tables {
                    links: links_joined(before.links, content.id, ids.subrange(0, rest.index())),
                    ..before
                }),
        {
            let ghost links = uow.tables().links;
            let content_tag = uow.content_tag().select(content.id, tag.id)?;
            if content_tag.is_none() {
                let link = ContentTagEntity { content_id: content.id, tag_id: tag.id };
                let _ = uow.content_tag().create(&link)?;
            }
            proof {
                let done = ids.subrange(0, rest.index());
                assert(ids.subrange(0, rest.index() + 1) =~= done.push(tag.id));
                lemma_links_joined_more(before.links, content.id, done, tag.id);
                assert(uow.tables().links =~= links.insert((content.id, tag.id)));
            }
        }
        proof {
            assert(ids.subrange(0, tags@.len() as int) =~= ids);
        }
        Ok(())
    }

    /// Creates a content item with the title and body of `dto`, tagged with
    /// its labels, in one unit of work. On any failure nothing of the call
    /// stays in the storage.
    pub fn create(&mut self, dto: CreateContentRequestDto) -> (r: Result<
        CreateContentResponseDto,
        UseCaseError,
    >)
        ensures
            engine_reliable::<P>() ==> r is Ok || r == Err::<
                CreateContentResponseDto,
                UseCaseError,
            >(UseCaseError::Storage(StorageError::Exhausted)),
            engine_reliable::<P>() && keys_free(old(self).tables().contents.dom(), 1) && keys_free(
                old(self).tables().tags.dom(),
                dto.labels@.len(),
            ) ==> r is Ok,
            match r {
                Ok(created) => {
                    &&& created.row() == dto.row()
                    &&& created.tag_labels() == label_views(dto.labels@)
                    &&& content_created(
                        old(self).tables(),
                        final(self).tables(),
                        dto.row(),
                        label_views(dto.labels@),
                        created.id,
                        created.tag_ids(),
                    )
                },
                Err(e) => e is Storage && final(self).tables() == old(self).tables(),
            },
    {
        let mut uow = lift(self.provider.begin())?;
        let tags = lift(self.find_or_create_tags(uow.tag(), dto.to_tags()))?;
        let content = lift(uow.content().create(&dto.to_content()))?;
        lift(self.link_tags_to_content(&mut uow, &content, tags.as_slice()))?;
        lift(uow.commit(&mut self.provider))?;
        Ok(CreateContentResponseDto::from_entity(content, tags))
    }

    /// Gives the content item `dto.id` the title and body of `dto` and
    /// replaces its labels with those of `dto`, in one unit of work. Fails
    /// with `NotFound` where there is no such item. On any failure nothing of
    /// the call stays in the storage.
    pub fn edit(&mut self, dto: EditContentRequestDto) -> (r: Result<
        CreateContentResponseDto,
        UseCaseError,
    >)
        ensures
            engine_reliable::<P>() ==> r is Ok || r == Err::<
                CreateContentResponseDto,
                UseCaseError,
            >(UseCaseError::NotFound) || r == Err::<CreateContentResponseDto, UseCaseError>(
                UseCaseError::Storage(StorageError::Exhausted),
            ),
            engine_reliable::<P>() && keys_free(old(self).tables().tags.dom(), dto.labels@.len())
                ==> r is Ok || r == Err::<CreateContentResponseDto, UseCaseError>(
                UseCaseError::NotFound,
            ),
            match r {
                Ok(edited) => {
                    &&& edited.id == dto.id
                    &&& edited.row() == dto.row()
                    &&& edited.tag_labels() == label_views(dto.labels@)
                    &&& content_edited(
                        old(self).tables(),
                        final(self).tables(),
                        dto.id,
                        dto.row(),
                        label_views(dto.labels@),
                        edited.tag_ids(),
                    )
                },
                Err(e) => {
                    &&& final(self).tables() == old(self).tables()
                    &&& e is NotFound ==> !old(self).tables().contents.dom().contains(dto.id)
                },
            },
    {
        let mut uow = lift(self.provider.begin())?;
        let _ = lift(uow.content_tag().delete_by_content_id(dto.id))?;
        let tags = lift(self.find_or_create_tags(uow.tag(), dto.to_tags()))?;
        let content = found(lift(uow.content().update(&dto.to_content()))?)?;
        lift(self.link_tags_to_content(&mut uow, &content, tags.as_slice()))?;
        lift(uow.commit(&mut self.provider))?;
        Ok(CreateContentResponseDto::from_entity(content, tags))
    }

    /// Removes the content item `id` and its associations, in one unit of
    /// work, and returns how many content rows went: 1, or 0 where there was
    /// no such item, which is no failure. On a failure nothing of the call
    /// stays in the storage.
    pub fn remove(&mut self, id: i64) -> (r: Result<u64, UseCaseError>)
        ensures
            engine_reliable::<P>() ==> r is Ok,
            match r {
                Ok(count) => content_removed(old(self).tables(), final(self).tables(), id, count),
                Err(e) => e is Storage && final(self).tables() == old(self).tables(),
            },
    {
        let mut uow = lift(self.provider.begin())?;
        let count = lift(uow.content().delete(id))?;
        if cascades(count) {
            let _ = lift(uow.content_tag().delete_by_content_id(id))?;
        }
        proof {
            let before = self.provider.tables();
            if before.contents.dom().contains(id) {
                assert(uow.tables() =~= before.without_content(id));
            } else {
                assert(uow.tables() =~= before);
            }
        }
        lift(uow.commit(&mut self.provider))?;
        Ok(count)
    }
}

} // verus!
