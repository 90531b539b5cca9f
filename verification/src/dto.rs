//! The plain values that callers hand to the orchestration and get back.

use vstd::prelude::*;
use crate::entity::{ContentEntity, ContentRow, TagEntity, tag_ids, tag_labels};

verus! {

/// The labels of a request as sequences of characters, in order.
pub open spec fn label_views(labels: Seq<String>) -> Seq<Seq<char>> {
    Seq::new(labels.len(), |i: int| labels[i]@)
}

/// What is needed to create a content item.
#[derive(Clone, Debug, PartialEq, Eq)]
pub struct CreateContentRequestDto {
    pub title: String,
    pub body: String,
    pub labels: Vec<String>,
}

/// A tag as reported back to the caller.
#[derive(Clone, Debug, PartialEq, Eq)]
pub struct CreateTagResponseDto {
    pub id: i64,
    pub label: String,
}

/// A content item as reported back to the caller, with the tags it was
/// given, in the order of the request.
#[derive(Clone, Debug, PartialEq, Eq)]
pub struct CreateContentResponseDto {
    pub id: i64,
    pub title: String,
    pub body: String,
    pub tags: Vec<CreateTagResponseDto>,
}

/// What is needed to edit the content item `id`: the new title and body, and
/// the labels that replace the ones it had.
#[derive(Clone, Debug, PartialEq, Eq)]
pub struct EditContentRequestDto {
    pub id: i64,
    pub title: String,
    pub body: String,
    pub labels: Vec<String>,
}

/// One unpersisted tag for each label, in order.
fn tags_of_labels(labels: &Vec<String>) -> (tags: Vec<TagEntity>)
    ensures
        tags@.len() == labels@.len(),
        tag_labels(tags@) == label_views(labels@),
        forall|i: int| 0 <= i < tags.len() ==> (#[trigger] tags[i]).id == 0,
{
    let mut tags: Vec<TagEntity> = Vec::new();
    let mut i: usize = 0;
    while i < labels.len()
        invariant
            i <= labels.len(),
            tags.len() == i,
            forall|k: int|
                0 <= k < i ==> (#[trigger] tags[k]).id == 0 && tags[k].label@ == labels[k]@,
        decreases labels.len() - i,
    {
        tags.push(TagEntity { id: 0, label: labels[i].clone() });
        i = i + 1;
    }
    assert(tag_labels(tags@) =~= label_views(labels@));
    tags
}

impl CreateContentRequestDto {
    /// Title and body of the request as the columns of a content row.
    pub open spec fn row(&self) -> ContentRow {
        ContentRow { title: self.title@, body: self.body@ }
    }

    /// The content item of the request, not yet persisted.
    pub fn to_content(&self) -> (content: ContentEntity)
        ensures
            content.id == 0,
            content.row() == self.row(),
    {
        ContentEntity { id: 0, title: self.title.clone(), body: self.body.clone() }
    }

    /// One unpersisted tag for each label of the request, in order.
    pub fn to_tags(&self) -> (tags: Vec<TagEntity>)
        ensures
            tags@.len() == self.labels@.len(),
            tag_labels(tags@) == label_views(self.labels@),
            forall|i: int| 0 <= i < tags.len() ==> (#[trigger] tags[i]).id == 0,
    {
        tags_of_labels(&self.labels)
    }
}

impl CreateTagResponseDto {
    /// Reports a persisted tag: same key, same label.
    pub fn from_entity(tag: TagEntity) -> (dto: Self)
        ensures
            dto.id == tag.id,
            dto.label@ == tag.label@,
    {
        Self { id: tag.id, label: tag.label }
    }
}

impl CreateContentResponseDto {
    /// Title and body of the response as the columns of a content row.
    pub open spec fn row(&self) -> ContentRow {
        ContentRow { title: self.title@, body: self.body@ }
    }

    /// The keys of the reported tags, in order.
    pub open spec fn tag_ids(&self) -> Seq<i64> {
        Seq::new(self.tags@.len(), |i: int| self.tags@[i].id)
    }

    /// The labels of the reported tags, in order.
    pub open spec fn tag_labels(&self) -> Seq<Seq<char>> {
        Seq::new(self.tags@.len(), |i: int| self.tags@[i].label@)
    }

    /// Reports a persisted content item with its tags, in their order.
    pub fn from_entity(content: ContentEntity, tags: Vec<TagEntity>) -> (dto: Self)
        ensures
            dto.id == content.id,
            dto.row() == content.row(),
            dto.tag_ids() == tag_ids(tags@),
            dto.tag_labels() == tag_labels(tags@),
    {
        let ghost given = tags@;
        let mut reported: Vec<CreateTagResponseDto> = Vec::new();
        for tag in rest: tags
            invariant
                rest.seq() == given,
                reported.len() == rest.index(),
                forall|k: int|
                    0 <= k < rest.index() ==> (#[trigger] reported[k]).id == given[k].id
                        && reported[k].label@ == given[k].label@,
        {
            reported.push(CreateTagResponseDto::from_entity(tag));
        }
        let dto = Self { id: content.id, title: content.title, body: content.body, tags: reported };
        assert(dto.tag_ids() =~= tag_ids(given));
        assert(dto.tag_labels() =~= tag_labels(given));
        dto
    }
}

impl EditContentRequestDto {
    /// Title and body of the request as the columns of a content row.
    pub open spec fn row(&self) -> ContentRow {
        ContentRow { title: self.title@, body: self.body@ }
    }

    /// The content item of the request: the key it addresses, the new title
    /// and body.
    pub fn to_content(&self) -> (content: ContentEntity)
        ensures
            content.id == self.id,
            content.row() == self.row(),
    {
        ContentEntity { id: self.id, title: self.title.clone(), body: self.body.clone() }
    }

    /// One unpersisted tag for each label of the request, in order.
    pub fn to_tags(&self) -> (tags: Vec<TagEntity>)
        ensures
            tags@.len() == self.labels@.len(),
            tag_labels(tags@) == label_views(self.labels@),
            forall|i: int| 0 <= i < tags.len() ==> (#[trigger] tags[i]).id == 0,
    {
        tags_of_labels(&self.labels)
    }
}

} // verus!
