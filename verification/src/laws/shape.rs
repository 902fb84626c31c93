//! The writer keeps a well-formed document well formed.

use crate::accessor::{custom_struct_field, field_index, named};
use crate::laws::{lemma_resolved, lemma_with_resource_entries};
use crate::laws::writes::{lemma_resource_index, lemma_written_shape};
use crate::property::{distinct_names, lemma_well_formed, DocumentModel, NodeModel, StructModel};
use crate::resources::{
    owned_resources, resource_entries, with_resource_entries, write_resources, writes_model,
};
use crate::save_file::{write_int, SaveFileModel};
use crate::search::lemma_first_index_sound;
use vstd::prelude::*;

verus! {

/// Replacing quantities of the resource map by quantities keeps a
/// well-formed document well formed.
proof fn lemma_resources_keep_shape(doc: DocumentModel, entries: Seq<(NodeModel, NodeModel)>)
    requires
        doc.well_formed(),
        resource_entries(doc) is Ok,
        entries.len() == resource_entries(doc)->Ok_0.len(),
        forall|j: int|
            0 <= j < entries.len() ==> (#[trigger] entries[j]).0 == resource_entries(
                doc,
            )->Ok_0[j].0,
        forall|j: int| 0 <= j < entries.len() ==> (#[trigger] entries[j]).1 is FloatProperty,
    ensures
        with_resource_entries(doc, entries).well_formed(),
{
    let before = resource_entries(doc)->Ok_0;
    let after = with_resource_entries(doc, entries);
    let i = field_index(doc.properties, "Resources"@)->Some_0;
    let fields = custom_struct_field(doc.properties, "Resources"@)->Ok_0;
    let first = (fields[0].0, NodeModel::MapProperty(entries));
    let old_map = NodeModel::MapProperty(before);
    let new_map = NodeModel::MapProperty(entries);
    let old_node = NodeModel::StructProperty(StructModel::CustomStruct(fields));
    let new_node = NodeModel::StructProperty(StructModel::CustomStruct(fields.update(0, first)));
    lemma_resolved(doc);
    assert(doc.properties[i].1.well_formed());
    lemma_well_formed(old_node);
    lemma_well_formed(new_node);
    lemma_well_formed(old_map);
    lemma_well_formed(new_map);
    assert(fields[0].1.well_formed());
    assert forall|j: int| 0 <= j < entries.len() implies (#[trigger] entries[j]).0.well_formed()
        && entries[j].1.well_formed() by {
        assert(before[j].0.well_formed());
        lemma_well_formed(entries[j].1);
    }
    assert(new_map.well_formed());
    assert(distinct_names(fields.update(0, first)));
    assert forall|k: int| 0 <= k < fields.len() implies (#[trigger] fields.update(
        0,
        first,
    )[k]).1.well_formed() by {
        if k != 0 {
            assert(fields[k].1.well_formed());
        }
    }
    assert(new_node.well_formed());
    assert(after.properties == doc.properties.update(i, ("Resources"@, new_node)));
    assert(distinct_names(after.properties));
    assert forall|k: int| 0 <= k < after.properties.len() implies (
    #[trigger] after.properties[k]).1.well_formed() by {
        if k != i {
            assert(doc.properties[k].1.well_formed());
        }
    }
}

/// Overwriting a top-level integer keeps well-formed fields well formed.
proof fn lemma_counter_keeps_shape(doc: DocumentModel, name: Seq<char>, value: i32)
    requires
        doc.well_formed(),
    ensures
        (DocumentModel {
            header: doc.header,
            properties: write_int(doc.properties, name, value).0,
        }).well_formed(),
{
    let (fields, outcome) = write_int(doc.properties, name, value);
    lemma_first_index_sound(doc.properties, named(name));
    if outcome is Ok {
        let i = field_index(doc.properties, name)->Some_0;
        lemma_well_formed(NodeModel::IntProperty(value));
        assert(distinct_names(fields));
        assert forall|k: int| 0 <= k < fields.len() implies (
        #[trigger] fields[k]).1.well_formed() by {
            if k != i {
                assert(doc.properties[k].1.well_formed());
            }
        }
    }
}

/// **The writer keeps the shape.** Whatever the writer does to a
/// well-formed document, and whether or not it succeeds, the document stays
/// well formed.
pub proof fn law_well_formed_kept(views: SaveFileModel, doc: DocumentModel)
    requires
        doc.well_formed(),
    ensures
        views.saved(doc).0.well_formed(),
{
    if owned_resources(doc) is Ok {
        let before = resource_entries(doc)->Ok_0;
        let entries = write_resources(before, writes_model(views.resource_writes())).0;
        let with_resources = with_resource_entries(doc, entries);
        let with_credits = DocumentModel {
            header: doc.header,
            properties: write_int(
                with_resources.properties,
                "Credits"@,
                views.miscellaneous.credits,
            ).0,
        };
        lemma_resource_index(before);
        lemma_written_shape(before, writes_model(views.resource_writes()), 14);
        lemma_resources_keep_shape(doc, entries);
        lemma_with_resource_entries(doc, entries);
        lemma_counter_keeps_shape(with_resources, "Credits"@, views.miscellaneous.credits);
        lemma_counter_keeps_shape(with_credits, "PerkPoints"@, views.miscellaneous.perk_points);
    }
}

} // verus!
