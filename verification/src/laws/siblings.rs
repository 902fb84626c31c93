//! What the writer leaves alone.

use crate::accessor::{custom_struct_field, field_index, int_field, named};
use crate::error::ErrorModel;
use crate::guid::Guid;
use crate::laws::{
    lemma_names_differ, lemma_resolved, lemma_with_resource_entries, lemma_write_int,
    lemma_writes_differ,
};
use crate::laws::writes::{aimed_at, lemma_resource_index, lemma_written_kept, lemma_written_shape};
use crate::path::{child, field_child, node_at, same_kind_at, Step};
use crate::property::{DocumentModel, FloatLeaf, NodeModel, StructModel};
use crate::resources::{
    key_index, owned_resources, resource_entries, resource_value, with_resource_entries,
    write_resources, writes_model,
};
use crate::save_file::{write_int, SaveFileModel};
use crate::save_file::brewing::Brewing;
use crate::save_file::minerals::Minerals;
use crate::save_file::miscellaneous::Miscellaneous;
use crate::search::lemma_first_index_sound;
use vstd::prelude::*;

verus! {

/// The path to the value of the entry at position `j` of the resource map
/// of a document.
pub open spec fn entry_path(doc: DocumentModel, j: int) -> Seq<Step> {
    seq![
        Step::Field {
            index: field_index(doc.properties, "Resources"@)->Some_0,
            name: "Resources"@,
        },
        Step::Field {
            index: 0,
            name: custom_struct_field(doc.properties, "Resources"@)->Ok_0[0].0,
        },
        Step::Value(j),
    ]
}

/// The path to the quantity that a document holds for `guid`, if it holds
/// one.
pub open spec fn resource_path(doc: DocumentModel, guid: Seq<u8>) -> Option<Seq<Step>> {
    match resource_entries(doc) {
        Err(_) => None,
        Ok(entries) => match key_index(entries, guid) {
            None => None,
            Some(j) => Some(entry_path(doc, j)),
        },
    }
}

/// The path to the top-level field called `name`, if there is one.
pub open spec fn counter_path(doc: DocumentModel, name: Seq<char>) -> Option<Seq<Step>> {
    match field_index(doc.properties, name) {
        None => None,
        Some(i) => Some(seq![Step::Field { index: i, name }]),
    }
}

/// The identifiers whose quantities the writer owns.
pub open spec fn written_guids() -> Seq<Guid> {
    Minerals::guids() + Brewing::guids() + Miscellaneous::guids()
}

/// Whether a path leads to a leaf that the writer owns: the quantity of one
/// of its identifiers, or one of the two counters.
pub open spec fn owned(doc: DocumentModel, path: Seq<Step>) -> bool {
    ||| exists|k: int|
        0 <= k < written_guids().len() && resource_path(doc, #[trigger] written_guids()[k]@)
            == Some(path)
    ||| counter_path(doc, "Credits"@) == Some(path)
    ||| counter_path(doc, "PerkPoints"@) == Some(path)
}

/// Whether a path leads to, or on the way to, a leaf that the writer owns.
pub open spec fn leads_to_owned(doc: DocumentModel, path: Seq<Step>) -> bool {
    exists|leaf: Seq<Step>| owned(doc, leaf) && path.is_prefix_of(leaf)
}

/// Overwriting a top-level integer keeps, at every path, a node of the same
/// kind, and keeps the node itself at every path but that of the integer.
proof fn lemma_counter_written(
    doc: DocumentModel,
    name: Seq<char>,
    value: i32,
    path: Seq<Step>,
)
    ensures
        ({
            let after = DocumentModel {
                header: doc.header,
                properties: write_int(doc.properties, name, value).0,
            };
            &&& same_kind_at(after, doc, path)
            &&& counter_path(doc, name) != Some(path) ==> after.node_at(path) == doc.node_at(path)
        }),
{
    let (fields, outcome) = write_int(doc.properties, name, value);
    let after = DocumentModel { header: doc.header, properties: fields };
    lemma_first_index_sound(doc.properties, named(name));
    if outcome is Ok && path.len() > 0 {
        let i = field_index(doc.properties, name)->Some_0;
        if let Step::Field { index, name: step_name } = path.first() {
            if index == i && step_name == name {
                let rest = path.drop_first();
                if rest.len() == 0 {
                    assert(path =~= seq![Step::Field { index: i, name }]);
                } else {
                    assert(child(doc.properties[i].1, rest.first()) is None);
                    assert(child(fields[i].1, rest.first()) is None);
                }
            }
        }
    }
}

/// Replacing quantities of the resource map by quantities keeps, at every
/// path, a node of the same kind, and keeps the node itself at every path
/// that does not lead to or through a replaced quantity.
proof fn lemma_resources_written(
    doc: DocumentModel,
    entries: Seq<(NodeModel, NodeModel)>,
    path: Seq<Step>,
)
    requires
        resource_entries(doc) is Ok,
        entries.len() == resource_entries(doc)->Ok_0.len(),
        forall|j: int|
            0 <= j < entries.len() ==> (#[trigger] entries[j]).0 == resource_entries(
                doc,
            )->Ok_0[j].0,
        forall|j: int| 0 <= j < entries.len() ==> (#[trigger] entries[j]).1 is FloatProperty,
        forall|j: int|
            0 <= j < entries.len() ==> (#[trigger] resource_entries(
                doc,
            )->Ok_0[j]).1 is FloatProperty,
    ensures
        same_kind_at(with_resource_entries(doc, entries), doc, path),
        (forall|j: int|
            0 <= j < entries.len() && #[trigger] entries[j] != resource_entries(doc)->Ok_0[j]
                ==> !path.is_prefix_of(entry_path(doc, j))) ==> with_resource_entries(
            doc,
            entries,
        ).node_at(path) == doc.node_at(path),
{
    let before = resource_entries(doc)->Ok_0;
    let after = with_resource_entries(doc, entries);
    let i = field_index(doc.properties, "Resources"@)->Some_0;
    let fields = custom_struct_field(doc.properties, "Resources"@)->Ok_0;
    let first = (fields[0].0, NodeModel::MapProperty(entries));
    lemma_resolved(doc);
    let unchanged = forall|j: int|
        0 <= j < entries.len() && #[trigger] entries[j] != before[j] ==> !path.is_prefix_of(
            entry_path(doc, j),
        );
    if path.len() > 0 {
        if let Step::Field { index, name } = path.first() {
            if index == i && name == "Resources"@ {
                let rest = path.drop_first();
                let old_node = doc.properties[i].1;
                let new_node = after.properties[i].1;
                assert(new_node == NodeModel::StructProperty(
                    StructModel::CustomStruct(fields.update(0, first)),
                ));
                assert(doc.node_at(path) == node_at(old_node, rest));
                assert(after.node_at(path) == node_at(new_node, rest));
                if rest.len() == 0 {
                    if unchanged {
                        assert(entries =~= before) by {
                            assert forall|j: int| 0 <= j < entries.len() implies entries[j]
                                == before[j] by {
                                if entries[j] != before[j] {
                                    assert(path.is_prefix_of(entry_path(doc, j)));
                                }
                            }
                        }
                        assert(fields.update(0, first) =~= fields);
                    }
                } else if let Step::Field { index: inner, name: inner_name } = rest.first() {
                    if inner == 0 && inner_name == fields[0].0 {
                        let deeper = rest.drop_first();
                        let old_map = NodeModel::MapProperty(before);
                        let new_map = NodeModel::MapProperty(entries);
                        assert(node_at(old_node, rest) == node_at(old_map, deeper));
                        assert(node_at(new_node, rest) == node_at(new_map, deeper));
                        if deeper.len() == 0 {
                            if unchanged {
                                assert(entries =~= before) by {
                                    assert forall|j: int| 0 <= j < entries.len() implies entries[j]
                                        == before[j] by {
                                        if entries[j] != before[j] {
                                            assert(path.is_prefix_of(entry_path(doc, j)));
                                        }
                                    }
                                }
                            }
                        } else {
                            let last = deeper.drop_first();
                            match deeper.first() {
                                Step::Key(j) => {},
                                Step::Value(j) => {
                                    if 0 <= j < entries.len() {
                                        assert(node_at(old_map, deeper) == node_at(
                                            before[j].1,
                                            last,
                                        ));
                                        assert(node_at(new_map, deeper) == node_at(
                                            entries[j].1,
                                            last,
                                        ));
                                        if last.len() == 0 {
                                            if unchanged && entries[j] != before[j] {
                                                assert(path =~= entry_path(doc, j));
                                                assert(path.is_prefix_of(entry_path(doc, j)));
                                            }
                                        } else {
                                            assert(child(before[j].1, last.first()) is None);
                                            assert(child(entries[j].1, last.first()) is None);
                                        }
                                    }
                                },
                                _ => {},
                            }
                        }
                    } else {
                        assert(child(new_node, rest.first()) == child(old_node, rest.first()));
                    }
                } else {
                    assert(child(new_node, rest.first()) == child(old_node, rest.first()));
                }
            } else {
                assert(field_child(after.properties, path.first()) == field_child(
                    doc.properties,
                    path.first(),
                ));
            }
        }
    }
}

/// The identifiers that the views are written under are those that the
/// writer owns.
proof fn lemma_written_guids(views: SaveFileModel)
    ensures
        written_guids().len() == 14,
        writes_model(views.resource_writes()).len() == 14,
        forall|k: int|
            0 <= k < 14 ==> (#[trigger] writes_model(views.resource_writes())[k]).0
                == written_guids()[k]@,
{
    let writes = writes_model(views.resource_writes());
    assert forall|k: int| 0 <= k < 14 implies (#[trigger] writes[k]).0 == written_guids()[k]@ by {
        if k < 6 {
            assert(written_guids()[k] == Minerals::guids()[k]);
        } else if k < 10 {
            assert(written_guids()[k] == Brewing::guids()[k - 6]);
        } else {
            assert(written_guids()[k] == Miscellaneous::guids()[k - 10]);
        }
    }
}

/// Writing the resource quantities of the views keeps, at every path, a
/// node of the same kind, and keeps the node itself at every path that does
/// not lead to or through a leaf that the writer owns.
proof fn lemma_resources_untouched(views: SaveFileModel, doc: DocumentModel, path: Seq<Step>)
    requires
        owned_resources(doc) is Ok,
    ensures
        ({
            let after = with_resource_entries(
                doc,
                write_resources(
                    resource_entries(doc)->Ok_0,
                    writes_model(views.resource_writes()),
                ).0,
            );
            &&& after.header == doc.header
            &&& same_kind_at(after, doc, path)
            &&& !leads_to_owned(doc, path) ==> after.node_at(path) == doc.node_at(path)
        }),
{
    let before = resource_entries(doc)->Ok_0;
    let writes = writes_model(views.resource_writes());
    let entries = write_resources(before, writes).0;
    lemma_written_guids(views);
    lemma_resource_index(before);
    lemma_written_shape(before, writes, 14);
    lemma_resource_index(entries);
    lemma_resources_written(doc, entries, path);
    if !leads_to_owned(doc, path) {
        assert forall|j: int|
            0 <= j < entries.len() && #[trigger] entries[j] != before[j] implies !path.is_prefix_of(
            entry_path(doc, j),
        ) by {
            assert(aimed_at(before, writes, 14, j));
            let k = choose|k: int|
                0 <= k < 14 && #[trigger] key_index(before, writes[k].0) == Some(j);
            assert(writes[k].0 == written_guids()[k]@);
            assert(resource_path(doc, written_guids()[k]@) == Some(entry_path(doc, j)));
            assert(owned(doc, entry_path(doc, j)));
        }
    }
}

/// Writing one of the two counters keeps, at every path, a node of the same
/// kind, and keeps the node itself at every path but that of the counter.
proof fn lemma_counter_untouched(
    doc: DocumentModel,
    start: DocumentModel,
    name: Seq<char>,
    value: i32,
    path: Seq<Step>,
)
    requires
        name == "Credits"@ || name == "PerkPoints"@,
        field_index(doc.properties, name) == field_index(start.properties, name),
    ensures
        ({
            let after = DocumentModel {
                header: doc.header,
                properties: write_int(doc.properties, name, value).0,
            };
            &&& same_kind_at(after, doc, path)
            &&& !leads_to_owned(start, path) ==> after.node_at(path) == doc.node_at(path)
        }),
{
    lemma_counter_written(doc, name, value, path);
    if counter_path(doc, name) == Some(path) {
        assert(counter_path(start, name) == Some(path));
        assert(owned(start, path));
        assert(path.is_prefix_of(path));
    }
}

/// The steps of the writer leave the two counters where they were.
proof fn lemma_steps_keep_names(views: SaveFileModel, doc: DocumentModel)
    requires
        owned_resources(doc) is Ok,
    ensures
        ({
            let with_resources = with_resource_entries(
                doc,
                write_resources(
                    resource_entries(doc)->Ok_0,
                    writes_model(views.resource_writes()),
                ).0,
            );
            let with_credits = write_int(
                with_resources.properties,
                "Credits"@,
                views.miscellaneous.credits,
            ).0;
            &&& field_index(with_resources.properties, "Credits"@) == field_index(
                doc.properties,
                "Credits"@,
            )
            &&& field_index(with_credits, "PerkPoints"@) == field_index(
                doc.properties,
                "PerkPoints"@,
            )
        }),
{
    let entries = write_resources(
        resource_entries(doc)->Ok_0,
        writes_model(views.resource_writes()),
    ).0;
    let with_resources = with_resource_entries(doc, entries);
    lemma_with_resource_entries(doc, entries);
    lemma_write_int(with_resources.properties, "Credits"@, views.miscellaneous.credits);
    assert(field_index(with_resources.properties, "PerkPoints"@) == field_index(
        doc.properties,
        "PerkPoints"@,
    ));
}

/// **Untouched siblings.** Whatever the writer does to a document, and
/// whether or not it succeeds, the header stays as it was; every path leads
/// to a node of the same kind as before, or to none as before, so that no
/// field, element or map entry is added, removed, renamed or moved; and every
/// path that does not lead to or through a leaf that the writer owns leads to
/// the very node that it led to before.
pub proof fn law_untouched_siblings(views: SaveFileModel, doc: DocumentModel, path: Seq<Step>)
    ensures
        views.saved(doc).0.header == doc.header,
        same_kind_at(views.saved(doc).0, doc, path),
        !leads_to_owned(doc, path) ==> views.saved(doc).0.node_at(path) == doc.node_at(path),
{
    if owned_resources(doc) is Ok {
        let with_resources = with_resource_entries(
            doc,
            write_resources(resource_entries(doc)->Ok_0, writes_model(views.resource_writes())).0,
        );
        let with_credits = DocumentModel {
            header: doc.header,
            properties: write_int(
                with_resources.properties,
                "Credits"@,
                views.miscellaneous.credits,
            ).0,
        };
        let with_perk_points = DocumentModel {
            header: doc.header,
            properties: write_int(
                with_credits.properties,
                "PerkPoints"@,
                views.miscellaneous.perk_points,
            ).0,
        };
        lemma_resources_untouched(views, doc, path);
        lemma_steps_keep_names(views, doc);
        lemma_counter_untouched(
            with_resources,
            doc,
            "Credits"@,
            views.miscellaneous.credits,
            path,
        );
        lemma_counter_untouched(
            with_credits,
            doc,
            "PerkPoints"@,
            views.miscellaneous.perk_points,
            path,
        );
        lemma_write_int(with_resources.properties, "Credits"@, views.miscellaneous.credits);
        lemma_write_int(with_credits.properties, "PerkPoints"@, views.miscellaneous.perk_points);
        assert(views.saved(doc).0 == with_resources || views.saved(doc).0 == with_perk_points);
    }
}

/// The value of the entry at position `j` of the resource map is what the
/// path to it leads to, also after the two counters were written.
proof fn lemma_entry_reached(views: SaveFileModel, doc: DocumentModel, j: int)
    requires
        owned_resources(doc) is Ok,
        0 <= j < resource_entries(doc)->Ok_0.len(),
    ensures
        doc.node_at(entry_path(doc, j)) == Some(resource_entries(doc)->Ok_0[j].1),
        views.saved(doc).0.node_at(entry_path(doc, j)) == Some(
            write_resources(
                resource_entries(doc)->Ok_0,
                writes_model(views.resource_writes()),
            ).0[j].1,
        ),
{
    let before = resource_entries(doc)->Ok_0;
    let writes = writes_model(views.resource_writes());
    let entries = write_resources(before, writes).0;
    let with_resources = with_resource_entries(doc, entries);
    let with_credits = DocumentModel {
        header: doc.header,
        properties: write_int(
            with_resources.properties,
            "Credits"@,
            views.miscellaneous.credits,
        ).0,
    };
    let path = entry_path(doc, j);
    lemma_resource_index(before);
    lemma_written_shape(before, writes, 14);
    lemma_resolved(doc);
    lemma_with_resource_entries(doc, entries);
    lemma_resolved(with_resources);
    reveal_with_fuel(node_at, 4);
    assert(path.drop_first().drop_first() =~= seq![Step::Value(j)]);
    assert(path.drop_first().drop_first().drop_first() =~= Seq::<Step>::empty());
    assert(doc.node_at(path) == Some(before[j].1));
    assert(with_resources.node_at(path) == Some(entries[j].1));
    lemma_counter_written(with_resources, "Credits"@, views.miscellaneous.credits, path);
    lemma_counter_written(with_credits, "PerkPoints"@, views.miscellaneous.perk_points, path);
    lemma_write_int(with_resources.properties, "Credits"@, views.miscellaneous.credits);
    lemma_write_int(with_credits.properties, "PerkPoints"@, views.miscellaneous.perk_points);
}

/// **Untouched siblings, among the leaves that the writer owns.** A
/// quantity that the views hold as the document holds it stays as it is.
pub proof fn law_kept_resource(views: SaveFileModel, doc: DocumentModel, k: int)
    requires
        owned_resources(doc) is Ok,
        0 <= k < 14,
        resource_value(owned_resources(doc)->Ok_0, written_guids()[k]@) == Ok::<
            FloatLeaf,
            ErrorModel,
        >(writes_model(views.resource_writes())[k].1),
    ensures
        resource_path(doc, written_guids()[k]@) is Some,
        views.saved(doc).0.node_at(resource_path(doc, written_guids()[k]@)->Some_0)
            == doc.node_at(resource_path(doc, written_guids()[k]@)->Some_0),
{
    let before = resource_entries(doc)->Ok_0;
    let writes = writes_model(views.resource_writes());
    lemma_written_guids(views);
    lemma_writes_differ(views);
    assert(writes[k].0 == written_guids()[k]@);
    lemma_written_kept(before, writes, 14, k);
    let j = key_index(before, writes[k].0)->Some_0;
    lemma_entry_reached(views, doc, j);
}

/// **Untouched siblings, among the leaves that the writer owns.** A
/// counter that the views hold as the document holds it stays as it is.
pub proof fn law_kept_counter(views: SaveFileModel, doc: DocumentModel, name: Seq<char>)
    requires
        name == "Credits"@ && int_field(doc.properties, name) == Ok::<i32, ErrorModel>(
            views.miscellaneous.credits,
        ) || name == "PerkPoints"@ && int_field(doc.properties, name) == Ok::<i32, ErrorModel>(
            views.miscellaneous.perk_points,
        ),
    ensures
        counter_path(doc, name) is Some,
        views.saved(doc).0.node_at(counter_path(doc, name)->Some_0) == doc.node_at(
            counter_path(doc, name)->Some_0,
        ),
{
    let path = counter_path(doc, name)->Some_0;
    lemma_names_differ();
    if owned_resources(doc) is Ok {
        let entries = write_resources(
            resource_entries(doc)->Ok_0,
            writes_model(views.resource_writes()),
        ).0;
        let with_resources = with_resource_entries(doc, entries);
        let with_credits = DocumentModel {
            header: doc.header,
            properties: write_int(
                with_resources.properties,
                "Credits"@,
                views.miscellaneous.credits,
            ).0,
        };
        lemma_with_resource_entries(doc, entries);
        lemma_first_index_sound(doc.properties, named(name));
        let i = field_index(doc.properties, name)->Some_0;
        assert(path.drop_first() =~= Seq::<Step>::empty());
        assert(with_resources.properties[i] == doc.properties[i]);
        assert(with_resources.node_at(path) == doc.node_at(path));
        assert(int_field(with_resources.properties, name) == int_field(doc.properties, name));
        lemma_write_int(with_resources.properties, "Credits"@, views.miscellaneous.credits);
        lemma_write_int(with_credits.properties, "PerkPoints"@, views.miscellaneous.perk_points);
        lemma_counter_written(with_resources, "Credits"@, views.miscellaneous.credits, path);
        lemma_counter_written(with_credits, "PerkPoints"@, views.miscellaneous.perk_points, path);
        if name == "Credits"@ {
            assert(with_credits.properties == with_resources.properties);
            assert(counter_path(with_credits, "PerkPoints"@) != Some(path));
        } else {
            assert(counter_path(with_resources, "Credits"@) != Some(path));
            assert(int_field(with_credits.properties, name) == int_field(
                with_resources.properties,
                name,
            ));
            assert(with_credits.properties[i] == with_resources.properties[i]);
        }
    }
}

} // verus!
