//! The persisted records. They carry no behaviour: relations between them
//! exist only as rows of the association table.

use vstd::prelude::*;

verus! {

/// The columns of a content row besides its key.
#[verifier::ext_equal]
pub struct ContentRow {
    pub title: Seq<char>,
    pub body: Seq<char>,
}

/// A content item. `id` is assigned by the store; before the item is
/// persisted it is 0 and ignored.
#[derive(Clone, Debug, PartialEq, Eq)]
pub struct ContentEntity {
    pub id: i64,
    pub title: String,
    pub body: String,
}

/// A tag. `id` is assigned by the store; before the tag is persisted it is 0
/// and ignored.
#[derive(Clone, Debug, PartialEq, Eq)]
pub struct TagEntity {
    pub id: i64,
    pub label: String,
}

/// One association between a content item and a tag, identified by the pair.
#[derive(Clone, Copy, Debug, PartialEq, Eq)]
pub struct ContentTagEntity {
    pub content_id: i64,
    pub tag_id: i64,
}

impl ContentEntity {
    /// What the row of this item holds besides the key.
    pub open spec fn row(&self) -> ContentRow {
        ContentRow { title: self.title@, body: self.body@ }
    }

    /// The same item once more.
    pub fn duplicate(&self) -> (copy: Self)
        ensures
            copy == *self,
    {
        Self { id: self.id, title: self.title.clone(), body: self.body.clone() }
    }

    /// The same title and body under the key `id`.
    pub fn with_id(&self, id: i64) -> (item: Self)
        ensures
            item == (Self { id, ..*self }),
    {
        Self { id, title: self.title.clone(), body: self.body.clone() }
    }
}

impl TagEntity {
    /// The same tag once more.
    pub fn duplicate(&self) -> (copy: Self)
        ensures
            copy == *self,
    {
        Self { id: self.id, label: self.label.clone() }
    }

    /// The same label under the key `id`.
    pub fn with_id(&self, id: i64) -> (tag: Self)
        ensures
            tag == (Self { id, ..*self }),
    {
        Self { id, label: self.label.clone() }
    }
}

impl ContentTagEntity {
    /// The pair `(content_id, tag_id)` that identifies the association.
    pub open spec fn pair(&self) -> (i64, i64) {
        (self.content_id, self.tag_id)
    }
}

/// The keys of a list of tags, in order.
pub open spec fn tag_ids(tags: Seq<TagEntity>) -> Seq<i64> {
    Seq::new(tags.len(), |i: int| tags[i].id)
}

/// The labels of a list of tags, in order.
pub open spec fn tag_labels(tags: Seq<TagEntity>) -> Seq<Seq<char>> {
    Seq::new(tags.len(), |i: int| tags[i].label@)
}

} // verus!
