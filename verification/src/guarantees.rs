//! What the operations guarantee of the tables, proved from the relations
//! that their contracts state.

use vstd::prelude::*;
use crate::entity::ContentRow;
use crate::keys::{
    keys_free,
    lemma_keys_free_after_insert,
    lemma_keys_free_after_inserts,
    lemma_keys_free_after_removal,
    lemma_keys_free_in_empty,
};
use crate::tables::{
    Tables,
    added,
    content_created,
    content_edited,
    content_removed,
    label_in,
    label_removed,
    labels_unique,
    tag_removed,
    tags_resolved,
};

verus! {

/// Removing a content item that does not exist removes no row and changes
/// nothing.
pub proof fn absent_content_removal_changes_nothing(
    before: Tables,
    after: Tables,
    id: i64,
    count: u64,
)
    requires
        content_removed(before, after, id, count),
        !before.contents.dom().contains(id),
    ensures
        count == 0,
        after == before,
{
}

/// Removing a tag that does not exist removes no row and changes nothing.
pub proof fn absent_tag_removal_changes_nothing(before: Tables, after: Tables, id: i64, count: u64)
    requires
        tag_removed(before, after, id, count),
        !before.tags.dom().contains(id),
    ensures
        count == 0,
        after == before,
{
}

/// Removing by a label that no tag carries removes no row and changes
/// nothing.
pub proof fn absent_label_removal_changes_nothing(
    before: Tables,
    after: Tables,
    label: Seq<char>,
    count: u64,
)
    requires
        label_removed(before, after, label, count),
        !label_in(before.tags, label),
    ensures
        count == 0,
        after == before,
{
}

/// Removing the same content item a second time removes no row and changes
/// nothing.
pub proof fn second_content_removal_changes_nothing(
    start: Tables,
    between: Tables,
    end: Tables,
    id: i64,
    first: u64,
    second: u64,
)
    requires
        content_removed(start, between, id, first),
        content_removed(between, end, id, second),
    ensures
        second == 0,
        end == between,
{
}

/// Removing the same tag a second time removes no row and changes nothing.
pub proof fn second_tag_removal_changes_nothing(
    start: Tables,
    between: Tables,
    end: Tables,
    id: i64,
    first: u64,
    second: u64,
)
    requires
        tag_removed(start, between, id, first),
        tag_removed(between, end, id, second),
    ensures
        second == 0,
        end == between,
{
}

/// Finding or creating tags keeps the labels of the tag table unique.
pub proof fn resolution_keeps_labels_unique(
    before: Map<i64, Seq<char>>,
    after: Map<i64, Seq<char>>,
    labels: Seq<Seq<char>>,
    ids: Seq<i64>,
)
    requires
        tags_resolved(before, after, labels, ids),
        labels_unique(before),
    ensures
        labels_unique(after),
{
    assert forall|a: i64, b: i64|
        #![trigger after.dom().contains(a), after.dom().contains(b)]
        after.dom().contains(a) && after.dom().contains(b) && after[a] == after[b] implies a
        == b by {
        if a != b {
            if before.dom().contains(a) && before.dom().contains(b) {
                assert(before[a] == after[a] && before[b] == after[b]);
            } else if before.dom().contains(a) {
                assert(added(before, after, b));
                assert(before.contains_pair(a, after[b]));
            } else if before.dom().contains(b) {
                assert(added(before, after, a));
                assert(before.contains_pair(b, after[a]));
            } else {
                assert(added(before, after, a) && added(before, after, b));
            }
        }
    }
}

/// Two content items created one after the other share the tag of every
/// label they have in common: there is one tag row for the label, and both
/// items are associated with it.
pub proof fn creations_share_tags(
    start: Tables,
    between: Tables,
    end: Tables,
    first_row: ContentRow,
    first_labels: Seq<Seq<char>>,
    first_id: i64,
    first_tags: Seq<i64>,
    second_row: ContentRow,
    second_labels: Seq<Seq<char>>,
    second_id: i64,
    second_tags: Seq<i64>,
    i: int,
    j: int,
)
    requires
        labels_unique(start.tags),
        content_created(start, between, first_row, first_labels, first_id, first_tags),
        content_created(between, end, second_row, second_labels, second_id, second_tags),
        0 <= i < first_labels.len(),
        0 <= j < second_labels.len(),
        first_labels[i] == second_labels[j],
    ensures
        labels_unique(end.tags),
        first_tags[i] == second_tags[j],
        end.tags.contains_pair(first_tags[i], first_labels[i]),
        end.links.contains((first_id, first_tags[i])),
        end.links.contains((second_id, first_tags[i])),
{
    resolution_keeps_labels_unique(start.tags, between.tags, first_labels, first_tags);
    resolution_keeps_labels_unique(between.tags, end.tags, second_labels, second_tags);
    assert(between.tags.contains_pair(first_tags[i], first_labels[i]));
    assert(end.tags.contains_pair(first_tags[i], first_labels[i])) by {
        assert(between.tags.dom().contains(first_tags[i]));
    }
    assert(end.tags.contains_pair(second_tags[j], second_labels[j]));
    assert(end.tags.dom().contains(first_tags[i]) && end.tags.dom().contains(second_tags[j]));
    assert(between.links.contains((first_id, first_tags[i])));
    assert(end.links.contains((first_id, first_tags[i])));
    assert(end.links.contains((second_id, second_tags[j])));
}

/// After a content item that existed was removed, no association refers to
/// it, and every tag row, every other content row and every association of
/// another item is as it was.
pub proof fn content_removal_cascades(before: Tables, after: Tables, id: i64, count: u64)
    requires
        content_removed(before, after, id, count),
        before.contents.dom().contains(id),
    ensures
        count == 1,
        !after.contents.dom().contains(id),
        forall|t: i64| !after.links.contains((id, t)),
        after.tags == before.tags,
        forall|c: i64|
            c != id ==> after.contents.dom().contains(c) == before.contents.dom().contains(c),
        forall|c: i64| c != id && before.contents.dom().contains(c) ==> after.contents[c]
            == before.contents[c],
        forall|c: i64, t: i64|
            c != id ==> after.links.contains((c, t)) == before.links.contains((c, t)),
{
}

/// After a tag that existed was removed, no association refers to it, and
/// every content row, every other tag row and every association with another
/// tag is as it was.
pub proof fn tag_removal_cascades(before: Tables, after: Tables, id: i64, count: u64)
    requires
        tag_removed(before, after, id, count),
        before.tags.dom().contains(id),
    ensures
        count == 1,
        !after.tags.dom().contains(id),
        forall|c: i64| !after.links.contains((c, id)),
        after.contents == before.contents,
        forall|t: i64| t != id ==> after.tags.dom().contains(t) == before.tags.dom().contains(t),
        forall|t: i64| t != id && before.tags.dom().contains(t) ==> after.tags[t] == before.tags[t],
        forall|c: i64, t: i64|
            t != id ==> after.links.contains((c, t)) == before.links.contains((c, t)),
{
}

/// After a tag was removed by a label that some tag carried, and labels were
/// unique, no tag carries the label, no association refers to the tag that
/// carried it, and every content row is as it was.
pub proof fn label_removal_cascades(before: Tables, after: Tables, label: Seq<char>, count: u64)
    requires
        label_removed(before, after, label, count),
        label_in(before.tags, label),
        labels_unique(before.tags),
    ensures
        count == 1,
        !label_in(after.tags, label),
        forall|id: i64, c: i64|
            before.tags.contains_pair(id, label) ==> !after.links.contains((c, id)),
        after.contents == before.contents,
{
    let gone = choose|id: i64| #[trigger]
        before.tags.contains_pair(id, label) && after == before.without_tag(id);
    assert forall|id: i64| before.tags.contains_pair(id, label) implies id == gone by {
        assert(before.tags.dom().contains(id) && before.tags.dom().contains(gone));
    }
    if label_in(after.tags, label) {
        let id = choose|id: i64| #[trigger] after.tags.contains_pair(id, label);
        assert(before.tags.contains_pair(id, label));
    }
}

/// After an edit the content item is associated with the tags of the new
/// labels and with no other, so the labels it is associated with are exactly
/// the new ones; the associations of every other item are as they were.
pub proof fn edit_replaces_labels(
    before: Tables,
    after: Tables,
    id: i64,
    row: ContentRow,
    labels: Seq<Seq<char>>,
    tag_ids: Seq<i64>,
)
    requires
        content_edited(before, after, id, row, labels, tag_ids),
    ensures
        forall|t: i64| after.links.contains((id, t)) <==> tag_ids.contains(t),
        after.labels_of(id) == labels.to_set(),
        forall|c: i64, t: i64|
            c != id ==> after.links.contains((c, t)) == before.links.contains((c, t)),
{
    assert forall|label: Seq<char>|
        after.labels_of(id).contains(label) <==> labels.to_set().contains(label) by {
        if after.labels_of(id).contains(label) {
            let t = choose|t: i64| #[trigger]
                after.links.contains((id, t)) && after.tags.contains_pair(t, label);
            assert(tag_ids.contains(t));
            let k = choose|k: int| 0 <= k < tag_ids.len() && tag_ids[k] == t;
            assert(after.tags.contains_pair(tag_ids[k], labels[k]));
            assert(labels[k] == label);
        }
        if labels.contains(label) {
            let k = choose|k: int| 0 <= k < labels.len() && labels[k] == label;
            assert(after.tags.contains_pair(tag_ids[k], labels[k]));
            assert(tag_ids.contains(tag_ids[k]));
            assert(after.links.contains((id, tag_ids[k])));
        }
    }
    assert(after.labels_of(id) =~= labels.to_set());
}

/// A new content item is associated with the tags of its labels and with no
/// other, where no association referred to its key before.
pub proof fn creation_links_labels(
    before: Tables,
    after: Tables,
    row: ContentRow,
    labels: Seq<Seq<char>>,
    id: i64,
    tag_ids: Seq<i64>,
)
    requires
        content_created(before, after, row, labels, id, tag_ids),
        before.referential(),
    ensures
        forall|t: i64| after.links.contains((id, t)) <==> tag_ids.contains(t),
        after.labels_of(id) == labels.to_set(),
{
    assert forall|t: i64| after.links.contains((id, t)) implies tag_ids.contains(t) by {
        if before.links.contains((id, t)) {
            assert(before.contents.dom().contains(id));
        }
    }
    assert forall|label: Seq<char>|
        after.labels_of(id).contains(label) <==> labels.to_set().contains(label) by {
        if after.labels_of(id).contains(label) {
            let t = choose|t: i64| #[trigger]
                after.links.contains((id, t)) && after.tags.contains_pair(t, label);
            assert(tag_ids.contains(t));
            let k = choose|k: int| 0 <= k < tag_ids.len() && tag_ids[k] == t;
            assert(after.tags.contains_pair(tag_ids[k], labels[k]));
        }
        if labels.contains(label) {
            let k = choose|k: int| 0 <= k < labels.len() && labels[k] == label;
            assert(after.tags.contains_pair(tag_ids[k], labels[k]));
            assert(tag_ids.contains(tag_ids[k]));
            assert(after.links.contains((id, tag_ids[k])));
        }
    }
    assert(after.labels_of(id) =~= labels.to_set());
}

/// Creating a content item keeps the tables consistent.
pub proof fn creation_keeps_consistency(
    before: Tables,
    after: Tables,
    row: ContentRow,
    labels: Seq<Seq<char>>,
    id: i64,
    tag_ids: Seq<i64>,
)
    requires
        content_created(before, after, row, labels, id, tag_ids),
        before.consistent(),
    ensures
        after.consistent(),
{
    resolution_keeps_labels_unique(before.tags, after.tags, labels, tag_ids);
    assert forall|c: i64, t: i64| #[trigger] after.links.contains((c, t)) implies {
        &&& after.contents.dom().contains(c)
        &&& after.tags.dom().contains(t)
    } by {
        if before.links.contains((c, t)) {
            assert(before.tags.dom().contains(t));
        } else {
            let k = choose|k: int| 0 <= k < tag_ids.len() && tag_ids[k] == t;
            assert(after.tags.contains_pair(tag_ids[k], labels[k]));
        }
    }
}

/// Editing a content item keeps the tables consistent.
pub proof fn edit_keeps_consistency(
    before: Tables,
    after: Tables,
    id: i64,
    row: ContentRow,
    labels: Seq<Seq<char>>,
    tag_ids: Seq<i64>,
)
    requires
        content_edited(before, after, id, row, labels, tag_ids),
        before.consistent(),
    ensures
        after.consistent(),
{
    resolution_keeps_labels_unique(before.tags, after.tags, labels, tag_ids);
    assert forall|c: i64, t: i64| #[trigger] after.links.contains((c, t)) implies {
        &&& after.contents.dom().contains(c)
        &&& after.tags.dom().contains(t)
    } by {
        if before.links.contains((c, t)) && c != id {
            assert(before.tags.dom().contains(t));
        } else {
            let k = choose|k: int| 0 <= k < tag_ids.len() && tag_ids[k] == t;
            assert(after.tags.contains_pair(tag_ids[k], labels[k]));
        }
    }
}

/// Removing a content item keeps the tables consistent.
pub proof fn content_removal_keeps_consistency(before: Tables, after: Tables, id: i64, count: u64)
    requires
        content_removed(before, after, id, count),
        before.consistent(),
    ensures
        after.consistent(),
{
    assert forall|c: i64, t: i64| #[trigger] after.links.contains((c, t)) implies {
        &&& after.contents.dom().contains(c)
        &&& after.tags.dom().contains(t)
    } by {
        assert(before.links.contains((c, t)));
    }
}

/// Removing a tag keeps the tables consistent.
pub proof fn tag_removal_keeps_consistency(before: Tables, after: Tables, id: i64, count: u64)
    requires
        tag_removed(before, after, id, count),
        before.consistent(),
    ensures
        after.consistent(),
{
    assert forall|c: i64, t: i64| #[trigger] after.links.contains((c, t)) implies {
        &&& after.contents.dom().contains(c)
        &&& after.tags.dom().contains(t)
    } by {
        assert(before.links.contains((c, t)));
    }
    assert forall|a: i64, b: i64|
        #![trigger after.tags.dom().contains(a), after.tags.dom().contains(b)]
        after.tags.dom().contains(a) && after.tags.dom().contains(b) && after.tags[a]
            == after.tags[b] implies a == b by {
        assert(before.tags.dom().contains(a) && before.tags.dom().contains(b));
    }
}

/// Removing a tag by its label keeps the tables consistent.
pub proof fn label_removal_keeps_consistency(
    before: Tables,
    after: Tables,
    label: Seq<char>,
    count: u64,
)
    requires
        label_removed(before, after, label, count),
        before.consistent(),
    ensures
        after.consistent(),
{
    if label_in(before.tags, label) {
        let gone = choose|id: i64| #[trigger]
            before.tags.contains_pair(id, label) && after == before.without_tag(id);
        assert(tag_removed(before, after, gone, count));
        tag_removal_keeps_consistency(before, after, gone, count);
    }
}

/// Tables without rows have every key left: as many as a table can give.
pub proof fn empty_tables_have_every_key(n: nat)
    requires
        n <= i64::MAX,
    ensures
        keys_free(Tables::empty().contents.dom(), n),
        keys_free(Tables::empty().tags.dom(), n),
{
    lemma_keys_free_in_empty(n);
    assert(Tables::empty().contents.dom() =~= Set::<i64>::empty());
    assert(Tables::empty().tags.dom() =~= Set::<i64>::empty());
}

/// Finding or creating tags takes at most one key for each label.
pub proof fn resolution_takes_a_key_per_label(
    before: Map<i64, Seq<char>>,
    after: Map<i64, Seq<char>>,
    labels: Seq<Seq<char>>,
    ids: Seq<i64>,
    left: nat,
)
    requires
        tags_resolved(before, after, labels, ids),
        keys_free(before.dom(), left + labels.len()),
    ensures
        keys_free(after.dom(), left),
{
    lemma_keys_free_after_inserts(before.dom(), ids, left);
    assert(after.dom().subset_of(before.dom().union(ids.to_set()))) by {
        assert forall|id: i64| after.dom().contains(id) implies before.dom().union(
            ids.to_set(),
        ).contains(id) by {
            if !before.dom().contains(id) {
                assert(added(before, after, id));
            }
        }
    }
    lemma_keys_free_after_removal(before.dom().union(ids.to_set()), after.dom(), left);
}

/// Creating a content item takes one content key and at most one tag key
/// for each label.
pub proof fn creation_takes_its_keys(
    before: Tables,
    after: Tables,
    row: ContentRow,
    labels: Seq<Seq<char>>,
    id: i64,
    tag_ids: Seq<i64>,
    contents_left: nat,
    tags_left: nat,
)
    requires
        content_created(before, after, row, labels, id, tag_ids),
        keys_free(before.contents.dom(), contents_left + 1),
        keys_free(before.tags.dom(), tags_left + labels.len()),
    ensures
        keys_free(after.contents.dom(), contents_left),
        keys_free(after.tags.dom(), tags_left),
{
    lemma_keys_free_after_insert(before.contents.dom(), id, contents_left);
    assert(after.contents.dom() =~= before.contents.dom().insert(id));
    resolution_takes_a_key_per_label(before.tags, after.tags, labels, tag_ids, tags_left);
}

/// Editing a content item takes no content key and at most one tag key for
/// each label.
pub proof fn edit_takes_its_keys(
    before: Tables,
    after: Tables,
    id: i64,
    row: ContentRow,
    labels: Seq<Seq<char>>,
    tag_ids: Seq<i64>,
    contents_left: nat,
    tags_left: nat,
)
    requires
        content_edited(before, after, id, row, labels, tag_ids),
        keys_free(before.contents.dom(), contents_left),
        keys_free(before.tags.dom(), tags_left + labels.len()),
    ensures
        keys_free(after.contents.dom(), contents_left),
        keys_free(after.tags.dom(), tags_left),
{
    assert(after.contents.dom() =~= before.contents.dom());
    resolution_takes_a_key_per_label(before.tags, after.tags, labels, tag_ids, tags_left);
}

/// Removing a content item takes no key.
pub proof fn content_removal_takes_no_key(
    before: Tables,
    after: Tables,
    id: i64,
    count: u64,
    contents_left: nat,
    tags_left: nat,
)
    requires
        content_removed(before, after, id, count),
        keys_free(before.contents.dom(), contents_left),
        keys_free(before.tags.dom(), tags_left),
    ensures
        keys_free(after.contents.dom(), contents_left),
        keys_free(after.tags.dom(), tags_left),
{
    lemma_keys_free_after_removal(before.contents.dom(), after.contents.dom(), contents_left);
}

/// Removing a tag takes no key.
pub proof fn tag_removal_takes_no_key(
    before: Tables,
    after: Tables,
    id: i64,
    count: u64,
    contents_left: nat,
    tags_left: nat,
)
    requires
        tag_removed(before, after, id, count),
        keys_free(before.contents.dom(), contents_left),
        keys_free(before.tags.dom(), tags_left),
    ensures
        keys_free(after.contents.dom(), contents_left),
        keys_free(after.tags.dom(), tags_left),
{
    lemma_keys_free_after_removal(before.tags.dom(), after.tags.dom(), tags_left);
}

/// Removing a tag by its label takes no key.
pub proof fn label_removal_takes_no_key(
    before: Tables,
    after: Tables,
    label: Seq<char>,
    count: u64,
    contents_left: nat,
    tags_left: nat,
)
    requires
        label_removed(before, after, label, count),
        keys_free(before.contents.dom(), contents_left),
        keys_free(before.tags.dom(), tags_left),
    ensures
        keys_free(after.contents.dom(), contents_left),
        keys_free(after.tags.dom(), tags_left),
{
    lemma_keys_free_after_removal(before.tags.dom(), after.tags.dom(), tags_left);
}

} // verus!
