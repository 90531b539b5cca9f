//! The mathematical model of the persisted state, and what each operation of
//! the library does to it.

use vstd::prelude::*;
use crate::entity::ContentRow;

verus! {

/// The three tables as a transaction sees them.
#[verifier::ext_equal]
pub struct Tables {
    /// Content rows by key.
    pub contents: Map<i64, ContentRow>,
    /// Tag labels by key.
    pub tags: Map<i64, Seq<char>>,
    /// The association: pairs `(content_id, tag_id)`.
    pub links: Set<(i64, i64)>,
}

/// Some tag row carries `label`.
pub open spec fn label_in(tags: Map<i64, Seq<char>>, label: Seq<char>) -> bool {
    exists|id: i64| #[trigger] tags.contains_pair(id, label)
}

/// No two tag rows carry the same label.
pub open spec fn labels_unique(tags: Map<i64, Seq<char>>) -> bool {
    forall|a: i64, b: i64|
        #![trigger tags.dom().contains(a), tags.dom().contains(b)]
        tags.dom().contains(a) && tags.dom().contains(b) && tags[a] == tags[b] ==> a == b
}

/// `id` is a row of `after` that `before` did not have.
pub open spec fn added(before: Map<i64, Seq<char>>, after: Map<i64, Seq<char>>, id: i64) -> bool {
    after.dom().contains(id) && !before.dom().contains(id)
}

/// The tag table went from `before` to `after` by finding or creating one tag
/// for each of `labels`, and `ids[i]` is the key of the tag for `labels[i]`.
///
/// No row was changed or removed; every row that was added is one of `ids`;
/// a row was added only for a label that no row carried, and only one for
/// each such label.
pub open spec fn tags_resolved(
    before: Map<i64, Seq<char>>,
    after: Map<i64, Seq<char>>,
    labels: Seq<Seq<char>>,
    ids: Seq<i64>,
) -> bool {
    &&& ids.len() == labels.len()
    &&& before.submap_of(after)
    &&& forall|i: int| 0 <= i < ids.len() ==> after.contains_pair(#[trigger] ids[i], labels[i])
    &&& forall|id: i64| #[trigger] added(before, after, id) ==> ids.contains(id)
    &&& forall|id: i64| #[trigger] added(before, after, id) ==> !label_in(before, after[id])
    &&& forall|a: i64, b: i64|
        #![trigger added(before, after, a), added(before, after, b)]
        added(before, after, a) && added(before, after, b) && after[a] == after[b] ==> a == b
}

/// `links` together with an association from `content_id` to each of `ids`.
pub open spec fn links_joined(links: Set<(i64, i64)>, content_id: i64, ids: Seq<i64>) -> Set<
    (i64, i64),
> {
    Set::new(|p: (i64, i64)| links.contains(p) || (p.0 == content_id && ids.contains(p.1)))
}

/// `links` without the associations of the content item `content_id`.
pub open spec fn links_without_content(links: Set<(i64, i64)>, content_id: i64) -> Set<(i64, i64)> {
    Set::new(|p: (i64, i64)| links.contains(p) && p.0 != content_id)
}

/// `links` without the associations of the tag `tag_id`.
pub open spec fn links_without_tag(links: Set<(i64, i64)>, tag_id: i64) -> Set<(i64, i64)> {
    Set::new(|p: (i64, i64)| links.contains(p) && p.1 != tag_id)
}

/// The associations of `links` that start at the content item `content_id`.
pub open spec fn links_of_content(links: Set<(i64, i64)>, content_id: i64) -> Set<(i64, i64)> {
    Set::new(|p: (i64, i64)| links.contains(p) && p.0 == content_id)
}

/// The associations of `links` that end at the tag `tag_id`.
pub open spec fn links_of_tag(links: Set<(i64, i64)>, tag_id: i64) -> Set<(i64, i64)> {
    Set::new(|p: (i64, i64)| links.contains(p) && p.1 == tag_id)
}

impl Tables {
    /// No rows at all.
    pub open spec fn empty() -> Tables {
        Tables { contents: Map::empty(), tags: Map::empty(), links: Set::empty() }
    }

    /// Every association joins a content row and a tag row that exist.
    pub open spec fn referential(self) -> bool {
        forall|c: i64, t: i64| #[trigger]
            self.links.contains((c, t)) ==> self.contents.dom().contains(c)
                && self.tags.dom().contains(t)
    }

    /// What the data model asks of the tables: one tag row per label, and no
    /// association without both of its ends.
    pub open spec fn consistent(self) -> bool {
        labels_unique(self.tags) && self.referential()
    }

    /// The labels that the content item `content_id` is associated with.
    pub open spec fn labels_of(self, content_id: i64) -> Set<Seq<char>> {
        Set::new(
            |label: Seq<char>|
                exists|t: i64| #[trigger]
                    self.links.contains((content_id, t)) && self.tags.contains_pair(t, label),
        )
    }

    /// The tables after the content row `id` and its associations are gone.
    pub open spec fn without_content(self, id: i64) -> Tables {
        Tables {
            contents: self.contents.remove(id),
            tags: self.tags,
            links: links_without_content(self.links, id),
        }
    }

    /// The tables after the tag row `id` and its associations are gone.
    pub open spec fn without_tag(self, id: i64) -> Tables {
        Tables {
            contents: self.contents,
            tags: self.tags.remove(id),
            links: links_without_tag(self.links, id),
        }
    }
}

/// `after` is `before` with a new content row `id` holding `row`, tagged with
/// `labels`: the tags were found or created, `tag_ids[i]` being the tag for
/// `labels[i]`, and the new row is associated with each of them.
pub open spec fn content_created(
    before: Tables,
    after: Tables,
    row: ContentRow,
    labels: Seq<Seq<char>>,
    id: i64,
    tag_ids: Seq<i64>,
) -> bool {
    &&& !before.contents.dom().contains(id)
    &&& after.contents == before.contents.insert(id, row)
    &&& tags_resolved(before.tags, after.tags, labels, tag_ids)
    &&& after.links == links_joined(before.links, id, tag_ids)
}

/// `after` is `before` with the existing content row `id` now holding `row`
/// and tagged with exactly `labels`: its earlier associations are gone, the
/// tags were found or created, `tag_ids[i]` being the tag for `labels[i]`, and
/// the row is associated with each of them and with no other.
pub open spec fn content_edited(
    before: Tables,
    after: Tables,
    id: i64,
    row: ContentRow,
    labels: Seq<Seq<char>>,
    tag_ids: Seq<i64>,
) -> bool {
    &&& before.contents.dom().contains(id)
    &&& after.contents == before.contents.insert(id, row)
    &&& tags_resolved(before.tags, after.tags, labels, tag_ids)
    &&& after.links == links_joined(links_without_content(before.links, id), id, tag_ids)
}

/// `after` is `before` once the content item `id` was removed, `count` rows of
/// the content table having gone: the row and its associations where it
/// existed, nothing where it did not.
pub open spec fn content_removed(before: Tables, after: Tables, id: i64, count: u64) -> bool {
    if before.contents.dom().contains(id) {
        count == 1 && after == before.without_content(id)
    } else {
        count == 0 && after == before
    }
}

/// `after` is `before` once the tag `id` was removed, `count` rows of the tag
/// table having gone: the row and its associations where it existed, nothing
/// where it did not.
pub open spec fn tag_removed(before: Tables, after: Tables, id: i64, count: u64) -> bool {
    if before.tags.dom().contains(id) {
        count == 1 && after == before.without_tag(id)
    } else {
        count == 0 && after == before
    }
}

/// `after` is `before` once a tag labelled `label` was removed, `count` rows
/// of the tag table having gone: one row that carried the label, with its
/// associations, where there was one; nothing where there was none.
pub open spec fn label_removed(
    before: Tables,
    after: Tables,
    label: Seq<char>,
    count: u64,
) -> bool {
    if label_in(before.tags, label) {
        count == 1 && exists|id: i64| #[trigger]
            before.tags.contains_pair(id, label) && after == before.without_tag(id)
    } else {
        count == 0 && after == before
    }
}

/// A tag that was found for one more label extends what was resolved.
pub proof fn lemma_resolved_found(
    before: Map<i64, Seq<char>>,
    rows: Map<i64, Seq<char>>,
    labels: Seq<Seq<char>>,
    ids: Seq<i64>,
    label: Seq<char>,
    id: i64,
)
    requires
        tags_resolved(before, rows, labels, ids),
        rows.contains_pair(id, label),
    ensures
        tags_resolved(before, rows, labels.push(label), ids.push(id)),
{
    let more = ids.push(id);
    assert forall|other: i64| #[trigger] added(before, rows, other) implies more.contains(
        other,
    ) by {
        let k = choose|k: int| 0 <= k < ids.len() && ids[k] == other;
        assert(more[k] == other);
    }
}

/// A tag that was created for one more label, which no row carried, extends
/// what was resolved.
pub proof fn lemma_resolved_created(
    before: Map<i64, Seq<char>>,
    rows: Map<i64, Seq<char>>,
    labels: Seq<Seq<char>>,
    ids: Seq<i64>,
    label: Seq<char>,
    id: i64,
)
    requires
        tags_resolved(before, rows, labels, ids),
        !rows.dom().contains(id),
        !label_in(rows, label),
    ensures
        tags_resolved(before, rows.insert(id, label), labels.push(label), ids.push(id)),
{
    let after = rows.insert(id, label);
    let more = ids.push(id);
    assert(before.submap_of(after)) by {
        assert forall|k: i64| before.dom().contains(k) implies #[trigger] after.dom().contains(k)
            && before[k] == after[k] by {
            assert(rows.dom().contains(k));
        }
    }
    assert forall|i: int| 0 <= i < more.len() implies after.contains_pair(
        #[trigger] more[i],
        labels.push(label)[i],
    ) by {
        if i < ids.len() {
            assert(rows.contains_pair(ids[i], labels[i]));
        }
    }
    assert forall|other: i64| #[trigger] added(before, after, other) implies more.contains(other)
        && !label_in(before, after[other]) by {
        if other == id {
            assert(more[ids.len() as int] == other);
            if label_in(before, label) {
                let w = choose|w: i64| #[trigger] before.contains_pair(w, label);
                assert(rows.contains_pair(w, label));
            }
        } else {
            assert(added(before, rows, other));
            let k = choose|k: int| 0 <= k < ids.len() && ids[k] == other;
            assert(more[k] == other);
        }
    }
    assert forall|a: i64, b: i64|
        #![trigger added(before, after, a), added(before, after, b)]
        added(before, after, a) && added(before, after, b) && after[a] == after[b] implies a
        == b by {
        if a != b {
            if a == id {
                assert(rows.contains_pair(b, label));
            } else if b == id {
                assert(rows.contains_pair(a, label));
            } else {
                assert(added(before, rows, a) && added(before, rows, b));
            }
        }
    }
}

/// One more tag takes the associations joined so far one pair further.
pub proof fn lemma_links_joined_more(
    links: Set<(i64, i64)>,
    content_id: i64,
    ids: Seq<i64>,
    id: i64,
)
    ensures
        links_joined(links, content_id, ids.push(id)) == links_joined(
            links,
            content_id,
            ids,
        ).insert((content_id, id)),
{
    let more = ids.push(id);
    assert forall|p: (i64, i64)|
        links_joined(links, content_id, more).contains(p) <==> links_joined(
            links,
            content_id,
            ids,
        ).insert((content_id, id)).contains(p) by {
        if ids.contains(p.1) {
            let k = choose|k: int| 0 <= k < ids.len() && ids[k] == p.1;
            assert(more[k] == p.1);
        }
        if more.contains(p.1) {
            let k = choose|k: int| 0 <= k < more.len() && more[k] == p.1;
            if k < ids.len() {
                assert(ids[k] == p.1);
            }
        }
        if p.1 == id {
            assert(more[ids.len() as int] == id);
        }
    }
    assert(links_joined(links, content_id, more) =~= links_joined(links, content_id, ids).insert(
        (content_id, id),
    ));
}

} // verus!
