//! What a run of writes does to a resource map.

use crate::error::ErrorModel;
use crate::property::{FloatLeaf, NodeModel, StructModel};
use crate::resources::{
    identified, key_index, keyed, malformed, resource_entry, resource_index, resource_value,
    written,
};
use crate::search::{
    first_index, lemma_first_index_absent, lemma_first_index_congruent, lemma_first_index_sound,
};
use vstd::prelude::*;

verus! {

/// What a well-formed resource map holds: every entry is an identifier
/// with a quantity, and the inventory lists them in the same order.
pub proof fn lemma_resource_index(entries: Seq<(NodeModel, NodeModel)>)
    requires
        resource_index(entries) is Ok,
    ensures
        resource_index(entries)->Ok_0.len() == entries.len(),
        forall|i: int|
            0 <= i < entries.len() ==> #[trigger] entries[i] == (
                NodeModel::StructProperty(StructModel::Guid(resource_index(entries)->Ok_0[i].0)),
                NodeModel::FloatProperty(resource_index(entries)->Ok_0[i].1),
            ),
        forall|guid: Seq<u8>| #[trigger]
            key_index(entries, guid) == first_index(
                resource_index(entries)->Ok_0,
                identified(guid),
            ),
{
    lemma_first_index_sound(entries, malformed());
    let index = resource_index(entries)->Ok_0;
    assert forall|i: int| 0 <= i < entries.len() implies #[trigger] entries[i] == (
        NodeModel::StructProperty(StructModel::Guid(index[i].0)),
        NodeModel::FloatProperty(index[i].1),
    ) by {
        assert(!malformed()(entries[i]));
    }
    assert forall|guid: Seq<u8>| #[trigger]
        key_index(entries, guid) == first_index(index, identified(guid)) by {
        assert forall|i: int| 0 <= i < entries.len() implies keyed(guid)(#[trigger] entries[i])
            == identified(guid)(index[i]) by {
            assert(!malformed()(entries[i]));
        }
        lemma_first_index_congruent(entries, keyed(guid), index, identified(guid));
    }
}

/// One write into a well-formed resource map leaves it well formed, with
/// the same keys in the same order; the written identifier then reads as the
/// written quantity, and every other identifier reads as before.
pub proof fn lemma_write_one(
    entries: Seq<(NodeModel, NodeModel)>,
    guid: Seq<u8>,
    value: FloatLeaf,
)
    requires
        resource_index(entries) is Ok,
        key_index(entries, guid) is Some,
    ensures
        ({
            let j = key_index(entries, guid)->Some_0;
            let after = entries.update(j, (entries[j].0, NodeModel::FloatProperty(value)));
            &&& 0 <= j < entries.len()
            &&& entries[j].0 == NodeModel::StructProperty(StructModel::Guid(guid))
            &&& resource_index(after) == Ok::<Seq<(Seq<u8>, FloatLeaf)>, ErrorModel>(
                resource_index(entries)->Ok_0.update(j, (guid, value)),
            )
            &&& resource_value(resource_index(after)->Ok_0, guid) == Ok::<FloatLeaf, ErrorModel>(
                value,
            )
            &&& forall|other: Seq<u8>| #[trigger]
                key_index(after, other) == key_index(entries, other)
            &&& forall|other: Seq<u8>|
                other != guid ==> #[trigger] resource_value(resource_index(after)->Ok_0, other)
                    == resource_value(resource_index(entries)->Ok_0, other)
        }),
{
    let j = key_index(entries, guid)->Some_0;
    let after = entries.update(j, (entries[j].0, NodeModel::FloatProperty(value)));
    let index = resource_index(entries)->Ok_0;
    let index_after = index.update(j, (guid, value));
    lemma_first_index_sound(entries, keyed(guid));
    lemma_first_index_sound(entries, malformed());
    lemma_resource_index(entries);
    assert(keyed(guid)(entries[j]));
    assert forall|i: int| 0 <= i < after.len() implies !malformed()(#[trigger] after[i]) by {
        assert(!malformed()(entries[i]));
    }
    lemma_first_index_absent(after, malformed());
    assert(resource_index(after)->Ok_0 =~= index_after) by {
        assert forall|i: int| 0 <= i < after.len() implies resource_entry(after[i])->Ok_0
            == index_after[i] by {
            assert(!malformed()(entries[i]));
        }
    }
    lemma_resource_index(after);
    assert forall|other: Seq<u8>| #[trigger]
        key_index(after, other) == key_index(entries, other) by {
        assert forall|i: int| 0 <= i < entries.len() implies keyed(other)(#[trigger] after[i])
            == keyed(other)(entries[i]) by {}
        lemma_first_index_congruent(after, keyed(other), entries, keyed(other));
    }
    assert(first_index(index_after, identified(guid)) == Some(j)) by {
        assert(key_index(after, guid) == key_index(entries, guid));
        assert(key_index(after, guid) == first_index(
            resource_index(after)->Ok_0,
            identified(guid),
        ));
    }
    assert forall|other: Seq<u8>| other != guid implies #[trigger] resource_value(
        index_after,
        other,
    ) == resource_value(index, other) by {
        assert(first_index(index_after, identified(other)) == first_index(
            index,
            identified(other),
        )) by {
            assert(key_index(after, other) == key_index(entries, other));
            assert(key_index(after, other) == first_index(
                resource_index(after)->Ok_0,
                identified(other),
            ));
            assert(key_index(entries, other) == first_index(index, identified(other)));
        }
        lemma_first_index_sound(index, identified(other));
        match first_index(index, identified(other)) {
            Some(i) => {
                assert(identified(other)(index[i]));
                assert(i != j);
            },
            None => {},
        }
    }
}

/// Whether one of the first `count` of `writes` is aimed at position `i`
/// of a resource map.
pub open spec fn aimed_at(
    entries: Seq<(NodeModel, NodeModel)>,
    writes: Seq<(Seq<u8>, FloatLeaf)>,
    count: nat,
    i: int,
) -> bool {
    exists|k: int| 0 <= k < count && #[trigger] key_index(entries, writes[k].0) == Some(i)
}

/// Writes into a well-formed resource map, whether or not all of them
/// succeed, leave it well formed with the same keys in the same order, and
/// change no entry but those that a write is aimed at.
pub proof fn lemma_written_shape(
    entries: Seq<(NodeModel, NodeModel)>,
    writes: Seq<(Seq<u8>, FloatLeaf)>,
    count: nat,
)
    requires
        resource_index(entries) is Ok,
        count <= writes.len(),
    ensures
        ({
            let after = written(entries, writes, count).0;
            &&& resource_index(after) is Ok
            &&& after.len() == entries.len()
            &&& forall|i: int| 0 <= i < entries.len() ==> (#[trigger] after[i]).0 == entries[i].0
            &&& forall|i: int| 0 <= i < entries.len() ==> (#[trigger] after[i]).1 is FloatProperty
            &&& forall|guid: Seq<u8>| #[trigger] key_index(after, guid) == key_index(entries, guid)
            &&& forall|i: int|
                0 <= i < entries.len() && !aimed_at(entries, writes, count, i)
                    ==> #[trigger] after[i] == entries[i]
        }),
    decreases count,
{
    lemma_resource_index(entries);
    if count > 0 {
        let fewer = (count - 1) as nat;
        lemma_written_shape(entries, writes, fewer);
        let (before, outcome) = written(entries, writes, fewer);
        let (guid, value) = writes[count - 1];
        let after = written(entries, writes, count).0;
        assert forall|i: int|
            0 <= i < entries.len() && aimed_at(entries, writes, fewer, i) implies aimed_at(
            entries,
            writes,
            count,
            i,
        ) by {
            let k = choose|k: int|
                0 <= k < fewer && #[trigger] key_index(entries, writes[k].0) == Some(i);
            assert(0 <= k < count && key_index(entries, writes[k].0) == Some(i));
        }
        if outcome is Ok && key_index(before, guid) is Some {
            let j = key_index(before, guid)->Some_0;
            lemma_write_one(before, guid, value);
            assert(key_index(before, guid) == key_index(entries, guid));
            assert(key_index(entries, writes[count - 1].0) == Some(j));
            assert(aimed_at(entries, writes, count, j));
            assert forall|other: Seq<u8>| #[trigger]
                key_index(after, other) == key_index(entries, other) by {
                assert(key_index(after, other) == key_index(before, other));
                assert(key_index(before, other) == key_index(entries, other));
            }
        } else {
            assert(after == before);
        }
    }
}

/// Where every write succeeds, each identifier reads as the quantity last
/// written under it.
#[verifier::rlimit(30)]
pub proof fn lemma_written_values(
    entries: Seq<(NodeModel, NodeModel)>,
    writes: Seq<(Seq<u8>, FloatLeaf)>,
    count: nat,
)
    requires
        resource_index(entries) is Ok,
        count <= writes.len(),
        written(entries, writes, count).1 is Ok,
    ensures
        resource_index(written(entries, writes, count).0) is Ok,
        forall|k: int|
            #![trigger writes[k]]
            0 <= k < count && (forall|m: int| k < m < count ==> (#[trigger] writes[m]).0
                != writes[k].0) ==> resource_value(
                resource_index(written(entries, writes, count).0)->Ok_0,
                writes[k].0,
            ) == Ok::<FloatLeaf, ErrorModel>(writes[k].1),
    decreases count,
{
    if count > 0 {
        let fewer = (count - 1) as nat;
        let (before, outcome) = written(entries, writes, fewer);
        let (guid, value) = writes[count - 1];
        assert(outcome is Ok);
        lemma_written_values(entries, writes, fewer);
        lemma_written_shape(entries, writes, fewer);
        lemma_write_one(before, guid, value);
        let index_before = resource_index(before)->Ok_0;
        let after = resource_index(written(entries, writes, count).0)->Ok_0;
        assert forall|k: int|
            #![trigger writes[k]]
            0 <= k < count && (forall|m: int| k < m < count ==> (#[trigger] writes[m]).0
                != writes[k].0) implies resource_value(after, writes[k].0) == Ok::<
            FloatLeaf,
            ErrorModel,
        >(writes[k].1) by {
            if k < count - 1 {
                assert(writes[count - 1].0 != writes[k].0);
                assert(resource_value(after, writes[k].0) == resource_value(
                    index_before,
                    writes[k].0,
                ));
                assert forall|m: int| k < m < fewer implies (#[trigger] writes[m]).0
                    != writes[k].0 by {}
            }
        }
    }
}

/// Writing back what a resource map already holds changes nothing and
/// succeeds.
pub proof fn lemma_written_same(
    entries: Seq<(NodeModel, NodeModel)>,
    writes: Seq<(Seq<u8>, FloatLeaf)>,
    count: nat,
)
    requires
        resource_index(entries) is Ok,
        count <= writes.len(),
        forall|k: int|
            0 <= k < count ==> resource_value(
                resource_index(entries)->Ok_0,
                (#[trigger] writes[k]).0,
            ) == Ok::<FloatLeaf, ErrorModel>(writes[k].1),
    ensures
        written(entries, writes, count) == (entries, Ok::<(), ErrorModel>(())),
    decreases count,
{
    if count > 0 {
        lemma_written_same(entries, writes, (count - 1) as nat);
        lemma_resource_index(entries);
        let (guid, value) = writes[count - 1];
        let index = resource_index(entries)->Ok_0;
        assert(resource_value(index, guid) == Ok::<FloatLeaf, ErrorModel>(value));
        assert(key_index(entries, guid) == first_index(index, identified(guid)));
        let j = key_index(entries, guid)->Some_0;
        lemma_first_index_sound(entries, keyed(guid));
        assert(entries[j] == (
            NodeModel::StructProperty(StructModel::Guid(index[j].0)),
            NodeModel::FloatProperty(index[j].1),
        ));
        assert(entries.update(j, (entries[j].0, NodeModel::FloatProperty(value))) =~= entries);
    }
}

/// Among writes under distinct identifiers, an entry that already holds the
/// quantity written under its identifier stays as it is.
pub proof fn lemma_written_kept(
    entries: Seq<(NodeModel, NodeModel)>,
    writes: Seq<(Seq<u8>, FloatLeaf)>,
    count: nat,
    k: int,
)
    requires
        resource_index(entries) is Ok,
        count <= writes.len(),
        0 <= k < writes.len(),
        forall|a: int, b: int|
            0 <= a < b < writes.len() ==> (#[trigger] writes[a]).0 != (#[trigger] writes[b]).0,
        resource_value(resource_index(entries)->Ok_0, writes[k].0) == Ok::<FloatLeaf, ErrorModel>(
            writes[k].1,
        ),
    ensures
        key_index(entries, writes[k].0) is Some,
        0 <= key_index(entries, writes[k].0)->Some_0 < entries.len(),
        written(entries, writes, count).0.len() == entries.len(),
        written(entries, writes, count).0[key_index(entries, writes[k].0)->Some_0]
            == entries[key_index(entries, writes[k].0)->Some_0],
    decreases count,
{
    lemma_resource_index(entries);
    let index = resource_index(entries)->Ok_0;
    let j = key_index(entries, writes[k].0)->Some_0;
    assert(key_index(entries, writes[k].0) == first_index(index, identified(writes[k].0)));
    lemma_first_index_sound(entries, keyed(writes[k].0));
    lemma_written_shape(entries, writes, count);
    if count > 0 {
        let fewer = (count - 1) as nat;
        lemma_written_kept(entries, writes, fewer, k);
        lemma_written_shape(entries, writes, fewer);
        let (before, outcome) = written(entries, writes, fewer);
        let (guid, value) = writes[count - 1];
        if outcome is Ok && key_index(before, guid) is Some {
            let aim = key_index(before, guid)->Some_0;
            assert(key_index(before, guid) == key_index(entries, guid));
            lemma_first_index_sound(entries, keyed(guid));
            if aim == j {
                assert(keyed(guid)(entries[j]));
                assert(keyed(writes[k].0)(entries[j]));
                assert(guid == writes[k].0);
                assert(count - 1 == k) by {
                    if count - 1 < k {
                        assert(writes[count - 1].0 != writes[k].0);
                    } else if k < count - 1 {
                        assert(writes[k].0 != writes[count - 1].0);
                    }
                }
                assert(entries[j] == (
                    NodeModel::StructProperty(StructModel::Guid(index[j].0)),
                    NodeModel::FloatProperty(index[j].1),
                ));
            }
        }
    }
}

} // verus!
