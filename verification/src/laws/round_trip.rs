//! Reading after writing, and writing after reading.

use crate::accessor::{get_spec, int_field};
use crate::error::ErrorModel;
use crate::laws::{
    lemma_names_differ, lemma_with_resource_entries, lemma_write_int, lemma_writes_differ,
};
use crate::laws::writes::{lemma_written_same, lemma_written_values};
use crate::property::{DocumentModel, FloatLeaf, NodeKind, NodeModel};
use crate::resources::{
    guids_model, missing_from, owned_resources, resource_entries, resource_index, resource_value,
    resource_values, with_resource_entries, write_resources, writes_model, written,
};
use crate::save_file::{write_int, SaveFileModel};
use crate::save_file::brewing::Brewing;
use crate::save_file::minerals::Minerals;
use crate::save_file::miscellaneous::Miscellaneous;
use crate::search::{lemma_first_index_absent, lemma_first_index_sound};
use vstd::prelude::*;

verus! {

/// Quantities that were read for a list of identifiers are what the
/// inventory holds for each of them.
proof fn lemma_values_known(index: Seq<(Seq<u8>, FloatLeaf)>, guids: Seq<Seq<u8>>)
    requires
        resource_values(index, guids) is Ok,
    ensures
        resource_values(index, guids)->Ok_0.len() == guids.len(),
        forall|k: int|
            0 <= k < guids.len() ==> resource_value(index, #[trigger] guids[k]) == Ok::<
                FloatLeaf,
                ErrorModel,
            >(resource_values(index, guids)->Ok_0[k]),
{
    lemma_first_index_sound(guids, missing_from(index));
    assert forall|k: int| 0 <= k < guids.len() implies resource_value(
        index,
        #[trigger] guids[k],
    ) == Ok::<FloatLeaf, ErrorModel>(resource_values(index, guids)->Ok_0[k]) by {
        assert(!missing_from(index)(guids[k]));
    }
}

/// The minerals that were read from a document are what its inventory holds
/// under their identifiers.
proof fn lemma_minerals_known(views: SaveFileModel, doc: DocumentModel)
    requires
        Minerals::read(doc) == Ok::<Minerals, ErrorModel>(views.minerals),
    ensures
        owned_resources(doc) is Ok,
        forall|k: int|
            0 <= k < 6 ==> resource_value(
                owned_resources(doc)->Ok_0,
                (#[trigger] writes_model(views.resource_writes())[k]).0,
            ) == Ok::<FloatLeaf, ErrorModel>(writes_model(views.resource_writes())[k].1),
{
    let index = owned_resources(doc)->Ok_0;
    let writes = writes_model(views.resource_writes());
    let guids = guids_model(Minerals::guids());
    lemma_values_known(index, guids);
    assert(resource_values(index, guids)->Ok_0 =~= views.minerals.values());
    assert forall|k: int| 0 <= k < 6 implies resource_value(index, (#[trigger] writes[k]).0)
        == Ok::<FloatLeaf, ErrorModel>(writes[k].1) by {
        assert(writes[k] == (guids[k - 0], views.minerals.values()[k - 0]));
    }
}

/// The brewing ingredients that were read from a document are what its inventory holds
/// under their identifiers.
proof fn lemma_brewing_known(views: SaveFileModel, doc: DocumentModel)
    requires
        Brewing::read(doc) == Ok::<Brewing, ErrorModel>(views.brewing),
    ensures
        owned_resources(doc) is Ok,
        forall|k: int|
            6 <= k < 10 ==> resource_value(
                owned_resources(doc)->Ok_0,
                (#[trigger] writes_model(views.resource_writes())[k]).0,
            ) == Ok::<FloatLeaf, ErrorModel>(writes_model(views.resource_writes())[k].1),
{
    let index = owned_resources(doc)->Ok_0;
    let writes = writes_model(views.resource_writes());
    let guids = guids_model(Brewing::guids());
    lemma_values_known(index, guids);
    assert(resource_values(index, guids)->Ok_0 =~= views.brewing.values());
    assert forall|k: int| 6 <= k < 10 implies resource_value(index, (#[trigger] writes[k]).0)
        == Ok::<FloatLeaf, ErrorModel>(writes[k].1) by {
        assert(writes[k] == (guids[k - 6], views.brewing.values()[k - 6]));
    }
}

/// The miscellaneous resources that were read from a document are what its inventory holds
/// under their identifiers.
proof fn lemma_miscellaneous_known(views: SaveFileModel, doc: DocumentModel)
    requires
        Miscellaneous::read(doc) == Ok::<Miscellaneous, ErrorModel>(views.miscellaneous),
    ensures
        owned_resources(doc) is Ok,
        forall|k: int|
            10 <= k < 14 ==> resource_value(
                owned_resources(doc)->Ok_0,
                (#[trigger] writes_model(views.resource_writes())[k]).0,
            ) == Ok::<FloatLeaf, ErrorModel>(writes_model(views.resource_writes())[k].1),
{
    let index = owned_resources(doc)->Ok_0;
    let writes = writes_model(views.resource_writes());
    let guids = guids_model(Miscellaneous::guids());
    lemma_values_known(index, guids);
    assert(resource_values(index, guids)->Ok_0 =~= views.miscellaneous.values());
    assert forall|k: int| 10 <= k < 14 implies resource_value(index, (#[trigger] writes[k]).0)
        == Ok::<FloatLeaf, ErrorModel>(writes[k].1) by {
        assert(writes[k] == (guids[k - 10], views.miscellaneous.values()[k - 10]));
    }
}

/// What the views of a document say of its resource inventory: each of
/// their quantities is what the inventory holds under its identifier.
#[verifier::rlimit(30)]
proof fn lemma_views_known(views: SaveFileModel, doc: DocumentModel)
    requires
        Minerals::read(doc) == Ok::<Minerals, ErrorModel>(views.minerals),
        Brewing::read(doc) == Ok::<Brewing, ErrorModel>(views.brewing),
        Miscellaneous::read(doc) == Ok::<Miscellaneous, ErrorModel>(views.miscellaneous),
    ensures
        owned_resources(doc) is Ok,
        forall|k: int|
            0 <= k < 14 ==> resource_value(
                owned_resources(doc)->Ok_0,
                (#[trigger] writes_model(views.resource_writes())[k]).0,
            ) == Ok::<FloatLeaf, ErrorModel>(writes_model(views.resource_writes())[k].1),
{
    lemma_minerals_known(views, doc);
    lemma_brewing_known(views, doc);
    lemma_miscellaneous_known(views, doc);
}

/// **Round trip.** Writing back the views that were just read from a
/// document succeeds and leaves the document, header and every node, as it
/// was: an encoder is handed what the decoder gave.
#[verifier::rlimit(30)]
pub proof fn law_round_trip(views: SaveFileModel, doc: DocumentModel)
    requires
        Minerals::read(doc) == Ok::<Minerals, ErrorModel>(views.minerals),
        Brewing::read(doc) == Ok::<Brewing, ErrorModel>(views.brewing),
        Miscellaneous::read(doc) == Ok::<Miscellaneous, ErrorModel>(views.miscellaneous),
    ensures
        views.saved(doc) == (doc, Ok::<(), ErrorModel>(())),
{
    lemma_views_known(views, doc);
    lemma_written_same(resource_entries(doc)->Ok_0, writes_model(views.resource_writes()), 14);
    lemma_with_resource_entries(doc, resource_entries(doc)->Ok_0);
    lemma_write_int(doc.properties, "Credits"@, views.miscellaneous.credits);
    lemma_write_int(doc.properties, "PerkPoints"@, views.miscellaneous.perk_points);
}

/// Where the writer succeeds, the document that it leaves resolves to the
/// resource map with all quantities written, and its two counters read as
/// written.
#[verifier::rlimit(30)]
proof fn lemma_saved_document(views: SaveFileModel, doc: DocumentModel)
    requires
        views.saved(doc).1 is Ok,
    ensures
        owned_resources(doc) is Ok,
        write_resources(
            resource_entries(doc)->Ok_0,
            writes_model(views.resource_writes()),
        ).1 is Ok,
        resource_entries(views.saved(doc).0) == Ok::<Seq<(NodeModel, NodeModel)>, ErrorModel>(
            write_resources(resource_entries(doc)->Ok_0, writes_model(views.resource_writes())).0,
        ),
        int_field(views.saved(doc).0.properties, "Credits"@) == Ok::<i32, ErrorModel>(
            views.miscellaneous.credits,
        ),
        int_field(views.saved(doc).0.properties, "PerkPoints"@) == Ok::<i32, ErrorModel>(
            views.miscellaneous.perk_points,
        ),
{
    let entries = resource_entries(doc)->Ok_0;
    let writes = writes_model(views.resource_writes());
    let (entries_after, _) = write_resources(entries, writes);
    let with_resources = with_resource_entries(doc, entries_after);
    let (with_credits, _) = write_int(
        with_resources.properties,
        "Credits"@,
        views.miscellaneous.credits,
    );
    let (with_perk_points, _) = write_int(
        with_credits,
        "PerkPoints"@,
        views.miscellaneous.perk_points,
    );
    let after = views.saved(doc).0;
    lemma_names_differ();
    lemma_with_resource_entries(doc, entries_after);
    lemma_write_int(with_resources.properties, "Credits"@, views.miscellaneous.credits);
    lemma_write_int(with_credits, "PerkPoints"@, views.miscellaneous.perk_points);
    assert(after.properties == with_perk_points);
    assert(get_spec(with_credits, "Resources"@, NodeKind::StructProperty) == get_spec(
        with_resources.properties,
        "Resources"@,
        NodeKind::StructProperty,
    ));
    assert(get_spec(with_perk_points, "Resources"@, NodeKind::StructProperty) == get_spec(
        with_credits,
        "Resources"@,
        NodeKind::StructProperty,
    ));
    assert(get_spec(with_perk_points, "Credits"@, NodeKind::IntProperty) == get_spec(
        with_credits,
        "Credits"@,
        NodeKind::IntProperty,
    ));
}

/// Where all the writes of the views succeed, each of their identifiers
/// reads as the quantity written under it.
proof fn lemma_saved_values(views: SaveFileModel, entries: Seq<(NodeModel, NodeModel)>)
    requires
        resource_index(entries) is Ok,
        write_resources(entries, writes_model(views.resource_writes())).1 is Ok,
    ensures
        resource_index(write_resources(entries, writes_model(views.resource_writes())).0) is Ok,
        forall|k: int|
            0 <= k < 14 ==> resource_value(
                resource_index(
                    write_resources(entries, writes_model(views.resource_writes())).0,
                )->Ok_0,
                (#[trigger] writes_model(views.resource_writes())[k]).0,
            ) == Ok::<FloatLeaf, ErrorModel>(writes_model(views.resource_writes())[k].1),
{
    let writes = writes_model(views.resource_writes());
    lemma_writes_differ(views);
    lemma_written_values(entries, writes, 14);
    let index = resource_index(written(entries, writes, 14).0)->Ok_0;
    assert forall|k: int| 0 <= k < 14 implies resource_value(index, (#[trigger] writes[k]).0)
        == Ok::<FloatLeaf, ErrorModel>(writes[k].1) by {
        assert forall|m: int| k < m < 14 implies (#[trigger] writes[m]).0 != writes[k].0 by {}
    }
}

/// Identifiers that an inventory holds with these quantities are read as
/// these quantities.
proof fn lemma_values_read(
    index: Seq<(Seq<u8>, FloatLeaf)>,
    guids: Seq<Seq<u8>>,
    values: Seq<FloatLeaf>,
)
    requires
        guids.len() == values.len(),
        forall|k: int|
            0 <= k < guids.len() ==> resource_value(index, #[trigger] guids[k]) == Ok::<
                FloatLeaf,
                ErrorModel,
            >(values[k]),
    ensures
        resource_values(index, guids) == Ok::<Seq<FloatLeaf>, ErrorModel>(values),
{
    assert forall|k: int| 0 <= k < guids.len() implies !missing_from(index)(
        #[trigger] guids[k],
    ) by {
        assert(resource_value(index, guids[k]) is Ok);
    }
    lemma_first_index_absent(guids, missing_from(index));
    assert(resource_values(index, guids)->Ok_0 =~= values);
}

/// Where each written identifier reads as written, the minerals read as
/// written.
proof fn lemma_minerals_read_back(views: SaveFileModel, index: Seq<(Seq<u8>, FloatLeaf)>)
    requires
        forall|k: int|
            0 <= k < 14 ==> resource_value(
                index,
                (#[trigger] writes_model(views.resource_writes())[k]).0,
            ) == Ok::<FloatLeaf, ErrorModel>(writes_model(views.resource_writes())[k].1),
    ensures
        resource_values(index, guids_model(Minerals::guids())) == Ok::<
            Seq<FloatLeaf>,
            ErrorModel,
        >(views.minerals.values()),
{
    let writes = writes_model(views.resource_writes());
    let guids = guids_model(Minerals::guids());
    assert forall|k: int| 0 <= k < guids.len() implies resource_value(
        index,
        #[trigger] guids[k],
    ) == Ok::<FloatLeaf, ErrorModel>(views.minerals.values()[k]) by {
        assert(writes[k] == (guids[k], views.minerals.values()[k]));
    }
    lemma_values_read(index, guids, views.minerals.values());
}

/// Where each written identifier reads as written, the brewing ingredients
/// read as written.
proof fn lemma_brewing_read_back(views: SaveFileModel, index: Seq<(Seq<u8>, FloatLeaf)>)
    requires
        forall|k: int|
            0 <= k < 14 ==> resource_value(
                index,
                (#[trigger] writes_model(views.resource_writes())[k]).0,
            ) == Ok::<FloatLeaf, ErrorModel>(writes_model(views.resource_writes())[k].1),
    ensures
        resource_values(index, guids_model(Brewing::guids())) == Ok::<
            Seq<FloatLeaf>,
            ErrorModel,
        >(views.brewing.values()),
{
    let writes = writes_model(views.resource_writes());
    let guids = guids_model(Brewing::guids());
    assert forall|k: int| 0 <= k < guids.len() implies resource_value(
        index,
        #[trigger] guids[k],
    ) == Ok::<FloatLeaf, ErrorModel>(views.brewing.values()[k]) by {
        assert(writes[k + 6] == (guids[k], views.brewing.values()[k]));
    }
    lemma_values_read(index, guids, views.brewing.values());
}

/// Where each written identifier reads as written, the miscellaneous
/// resources read as written.
proof fn lemma_miscellaneous_read_back(
    views: SaveFileModel,
    index: Seq<(Seq<u8>, FloatLeaf)>,
)
    requires
        forall|k: int|
            0 <= k < 14 ==> resource_value(
                index,
                (#[trigger] writes_model(views.resource_writes())[k]).0,
            ) == Ok::<FloatLeaf, ErrorModel>(writes_model(views.resource_writes())[k].1),
    ensures
        resource_values(index, guids_model(Miscellaneous::guids())) == Ok::<
            Seq<FloatLeaf>,
            ErrorModel,
        >(views.miscellaneous.values()),
{
    let writes = writes_model(views.resource_writes());
    let guids = guids_model(Miscellaneous::guids());
    assert forall|k: int| 0 <= k < guids.len() implies resource_value(
        index,
        #[trigger] guids[k],
    ) == Ok::<FloatLeaf, ErrorModel>(views.miscellaneous.values()[k]) by {
        assert(writes[k + 10] == (guids[k], views.miscellaneous.values()[k]));
    }
    lemma_values_read(index, guids, views.miscellaneous.values());
}

/// Where all the writes of the views succeed, the resource map that they
/// leave is well formed and holds, for each view, the quantities of that
/// view.
proof fn lemma_saved_resources(views: SaveFileModel, entries: Seq<(NodeModel, NodeModel)>)
    requires
        resource_index(entries) is Ok,
        write_resources(entries, writes_model(views.resource_writes())).1 is Ok,
    ensures
        ({
            let after = resource_index(
                write_resources(entries, writes_model(views.resource_writes())).0,
            );
            &&& after is Ok
            &&& resource_values(after->Ok_0, guids_model(Minerals::guids())) == Ok::<
                Seq<FloatLeaf>,
                ErrorModel,
            >(views.minerals.values())
            &&& resource_values(after->Ok_0, guids_model(Brewing::guids())) == Ok::<
                Seq<FloatLeaf>,
                ErrorModel,
            >(views.brewing.values())
            &&& resource_values(after->Ok_0, guids_model(Miscellaneous::guids())) == Ok::<
                Seq<FloatLeaf>,
                ErrorModel,
            >(views.miscellaneous.values())
        }),
{
    lemma_saved_values(views, entries);
    let index = resource_index(
        write_resources(entries, writes_model(views.resource_writes())).0,
    )->Ok_0;
    lemma_minerals_read_back(views, index);
    lemma_brewing_read_back(views, index);
    lemma_miscellaneous_read_back(views, index);
}

/// A document whose inventory holds the quantities of the views, and whose
/// counters hold theirs, reads as the views.
#[verifier::rlimit(30)]
proof fn lemma_reads_as(views: SaveFileModel, doc: DocumentModel)
    requires
        owned_resources(doc) is Ok,
        resource_values(owned_resources(doc)->Ok_0, guids_model(Minerals::guids())) == Ok::<
            Seq<FloatLeaf>,
            ErrorModel,
        >(views.minerals.values()),
        resource_values(owned_resources(doc)->Ok_0, guids_model(Brewing::guids())) == Ok::<
            Seq<FloatLeaf>,
            ErrorModel,
        >(views.brewing.values()),
        resource_values(owned_resources(doc)->Ok_0, guids_model(Miscellaneous::guids())) == Ok::<
            Seq<FloatLeaf>,
            ErrorModel,
        >(views.miscellaneous.values()),
        int_field(doc.properties, "Credits"@) == Ok::<i32, ErrorModel>(
            views.miscellaneous.credits,
        ),
        int_field(doc.properties, "PerkPoints"@) == Ok::<i32, ErrorModel>(
            views.miscellaneous.perk_points,
        ),
    ensures
        Minerals::read(doc) == Ok::<Minerals, ErrorModel>(views.minerals),
        Brewing::read(doc) == Ok::<Brewing, ErrorModel>(views.brewing),
        Miscellaneous::read(doc) == Ok::<Miscellaneous, ErrorModel>(views.miscellaneous),
{
    assert(views.minerals.values().len() == 6);
    assert(views.brewing.values().len() == 4);
    assert(views.miscellaneous.values().len() == 4);
}

/// **Write, then read.** After the views were written into a document, the
/// builders read from it exactly what was written.
#[verifier::rlimit(30)]
pub proof fn law_write_then_read(views: SaveFileModel, doc: DocumentModel)
    requires
        views.saved(doc).1 is Ok,
    ensures
        Minerals::read(views.saved(doc).0) == Ok::<Minerals, ErrorModel>(views.minerals),
        Brewing::read(views.saved(doc).0) == Ok::<Brewing, ErrorModel>(views.brewing),
        Miscellaneous::read(views.saved(doc).0) == Ok::<Miscellaneous, ErrorModel>(
            views.miscellaneous,
        ),
{
    lemma_saved_document(views, doc);
    lemma_saved_resources(views, resource_entries(doc)->Ok_0);
    lemma_reads_as(views, views.saved(doc).0);
}

} // verus!
