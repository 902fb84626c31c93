//! What holds of reading and writing taken together.

pub mod missing;
pub mod round_trip;
pub mod shape;
pub mod siblings;
pub mod writes;

use crate::accessor::{custom_struct_field, field_index, get_spec, int_field, named};
use crate::error::ErrorModel;
use crate::property::{DocumentModel, NodeKind, NodeModel, StructModel};
use crate::resources::{resource_entries, with_resource_entries, writes_model};
use crate::save_file::{write_int, SaveFileModel};
use crate::search::{lemma_first_index_congruent, lemma_first_index_sound};
use vstd::prelude::*;

verus! {

/// Where the resource map of a document resolves, the document has a first
/// top-level field `Resources`; it holds a custom struct, whose first field
/// holds the map.
pub proof fn lemma_resolved(doc: DocumentModel)
    requires
        resource_entries(doc) is Ok,
    ensures
        ({
            let i = field_index(doc.properties, "Resources"@)->Some_0;
            let fields = custom_struct_field(doc.properties, "Resources"@)->Ok_0;
            &&& field_index(doc.properties, "Resources"@) is Some
            &&& 0 <= i < doc.properties.len()
            &&& doc.properties[i] == (
                "Resources"@,
                NodeModel::StructProperty(StructModel::CustomStruct(fields)),
            )
            &&& fields.len() > 0
            &&& fields[0].1 == NodeModel::MapProperty(resource_entries(doc)->Ok_0)
        }),
{
    lemma_first_index_sound(doc.properties, named("Resources"@));
}

/// Replacing one field by a field of the same name leaves every name where
/// it was.
pub proof fn lemma_update_keeps_names(
    fields: Seq<(Seq<char>, NodeModel)>,
    i: int,
    node: NodeModel,
)
    requires
        0 <= i < fields.len(),
    ensures
        forall|name: Seq<char>| #[trigger]
            field_index(fields.update(i, (fields[i].0, node)), name) == field_index(fields, name),
{
    let after = fields.update(i, (fields[i].0, node));
    assert forall|name: Seq<char>| #[trigger]
        field_index(after, name) == field_index(fields, name) by {
        assert forall|j: int| 0 <= j < after.len() implies named(name)(#[trigger] after[j])
            == named(name)(fields[j]) by {}
        lemma_first_index_congruent(after, named(name), fields, named(name));
    }
}

/// A document whose resource map was replaced resolves to the new map; its
/// header and its other top-level fields are as before.
pub proof fn lemma_with_resource_entries(
    doc: DocumentModel,
    entries: Seq<(NodeModel, NodeModel)>,
)
    requires
        resource_entries(doc) is Ok,
    ensures
        ({
            let after = with_resource_entries(doc, entries);
            let i = field_index(doc.properties, "Resources"@)->Some_0;
            &&& resource_entries(after) == Ok::<Seq<(NodeModel, NodeModel)>, ErrorModel>(entries)
            &&& after.header == doc.header
            &&& after.properties.len() == doc.properties.len()
            &&& forall|name: Seq<char>| #[trigger]
                field_index(after.properties, name) == field_index(doc.properties, name)
            &&& forall|j: int|
                0 <= j < doc.properties.len() && j != i ==> #[trigger] after.properties[j]
                    == doc.properties[j]
            &&& forall|name: Seq<char>, kind: NodeKind|
                name != "Resources"@ ==> #[trigger] get_spec(after.properties, name, kind)
                    == get_spec(doc.properties, name, kind)
            &&& entries == resource_entries(doc)->Ok_0 ==> after == doc
        }),
{
    lemma_resolved(doc);
    let after = with_resource_entries(doc, entries);
    let i = field_index(doc.properties, "Resources"@)->Some_0;
    let fields = custom_struct_field(doc.properties, "Resources"@)->Ok_0;
    let first = (fields[0].0, NodeModel::MapProperty(entries));
    let resources = NodeModel::StructProperty(StructModel::CustomStruct(fields.update(0, first)));
    lemma_update_keeps_names(doc.properties, i, resources);
    assert(after.properties == doc.properties.update(i, (doc.properties[i].0, resources)));
    assert(field_index(after.properties, "Resources"@) == Some(i));
    assert forall|name: Seq<char>, kind: NodeKind|
        name != "Resources"@ implies #[trigger] get_spec(after.properties, name, kind) == get_spec(
        doc.properties,
        name,
        kind,
    ) by {
        assert(field_index(after.properties, name) == field_index(doc.properties, name));
        lemma_first_index_sound(doc.properties, named(name));
        if let Some(j) = field_index(doc.properties, name) {
            assert(named(name)(doc.properties[j]));
            assert(j != i);
        }
    }
    if entries == resource_entries(doc)->Ok_0 {
        assert(fields.update(0, first) =~= fields);
        assert(after.properties =~= doc.properties);
    }
}

/// Overwriting an integer field: where it succeeds the field reads as the
/// written value; every other field, and every name, is as before; and
/// writing the value that the field holds changes nothing.
pub proof fn lemma_write_int(fields: Seq<(Seq<char>, NodeModel)>, name: Seq<char>, value: i32)
    ensures
        ({
            let (after, outcome) = write_int(fields, name, value);
            &&& after.len() == fields.len()
            &&& outcome is Ok <==> int_field(fields, name) is Ok
            &&& outcome is Err ==> after == fields && outcome->Err_0 == int_field(
                fields,
                name,
            )->Err_0
            &&& outcome is Ok ==> int_field(after, name) == Ok::<i32, ErrorModel>(value)
            &&& int_field(fields, name) == Ok::<i32, ErrorModel>(value) ==> after == fields
            &&& forall|other: Seq<char>| #[trigger]
                field_index(after, other) == field_index(fields, other)
            &&& forall|j: int|
                0 <= j < fields.len() && field_index(fields, name) != Some(j)
                    ==> #[trigger] after[j] == fields[j]
            &&& forall|other: Seq<char>, kind: NodeKind|
                other != name ==> #[trigger] get_spec(after, other, kind) == get_spec(
                    fields,
                    other,
                    kind,
                )
        }),
{
    let (after, outcome) = write_int(fields, name, value);
    lemma_first_index_sound(fields, named(name));
    if outcome is Ok {
        let i = field_index(fields, name)->Some_0;
        lemma_update_keeps_names(fields, i, NodeModel::IntProperty(value));
        assert(after == fields.update(i, (fields[i].0, NodeModel::IntProperty(value))));
        assert forall|other: Seq<char>, kind: NodeKind|
            other != name implies #[trigger] get_spec(after, other, kind) == get_spec(
            fields,
            other,
            kind,
        ) by {
            assert(field_index(after, other) == field_index(fields, other));
            lemma_first_index_sound(fields, named(other));
            if let Some(j) = field_index(fields, other) {
                assert(named(other)(fields[j]));
                assert(j != i);
            }
        }
        assert(field_index(after, name) == Some(i));
        if int_field(fields, name) == Ok::<i32, ErrorModel>(value) {
            assert(after =~= fields);
        }
    }
}

/// The three names that the writer looks up at the top level differ.
pub proof fn lemma_names_differ()
    ensures
        "Resources"@ != "Credits"@,
        "Resources"@ != "PerkPoints"@,
        "Credits"@ != "PerkPoints"@,
{
    reveal_strlit("Resources");
    reveal_strlit("Credits");
    reveal_strlit("PerkPoints");
    assert("Resources"@.len() == 9);
    assert("Credits"@.len() == 7);
    assert("PerkPoints"@.len() == 10);
}

/// No identifier is written twice.
pub proof fn lemma_writes_differ(views: SaveFileModel)
    ensures
        writes_model(views.resource_writes()).len() == 14,
        forall|k: int, m: int|
            0 <= k < m < 14 ==> (#[trigger] writes_model(views.resource_writes())[k]).0
                != (#[trigger] writes_model(views.resource_writes())[m]).0,
{
    let writes = writes_model(views.resource_writes());
    assert(writes.len() == 14);
    assert forall|k: int, m: int| 0 <= k < m < 14 implies (#[trigger] writes[k]).0
        != (#[trigger] writes[m]).0 by {
        let a = writes[k].0;
        let b = writes[m].0;
        assert(a.len() == 16 && b.len() == 16);
        assert(a[0] != b[0] || a[1] != b[1]);
    }
}

} // verus!
