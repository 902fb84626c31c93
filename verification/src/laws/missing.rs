//! A field that is missing fails the builder that reads it, and no other.

use crate::accessor::{field_index, get_spec, int_field, named};
use crate::error::ErrorModel;
use crate::property::{DocumentModel, NodeKind, NodeModel};
use crate::registry::SchematicModel;
use crate::resources::owned_resources;
use crate::save_file::brewing::Brewing;
use crate::save_file::dwarfs::Characters;
use crate::save_file::forge::Forge;
use crate::save_file::minerals::Minerals;
use crate::save_file::miscellaneous::Miscellaneous;
use crate::search::{lemma_first_index_absent, lemma_first_index_found, lemma_first_index_sound};
use vstd::prelude::*;

verus! {

/// Taking a field out of a list changes nothing for a lookup under another
/// name.
proof fn lemma_remove_other(
    fields: Seq<(Seq<char>, NodeModel)>,
    i: int,
    name: Seq<char>,
    kind: NodeKind,
)
    requires
        0 <= i < fields.len(),
        fields[i].0 != name,
    ensures
        get_spec(fields.remove(i), name, kind) == get_spec(fields, name, kind),
{
    let rest = fields.remove(i);
    lemma_first_index_sound(fields, named(name));
    match field_index(fields, name) {
        Some(j) => {
            assert(named(name)(fields[j]));
            let moved = if j < i {
                j
            } else {
                j - 1
            };
            assert(rest[moved] == fields[j]);
            assert forall|h: int| 0 <= h < moved implies !named(name)(#[trigger] rest[h]) by {
                if h < i {
                    assert(!named(name)(fields[h]));
                } else {
                    assert(!named(name)(fields[h + 1]));
                }
            }
            lemma_first_index_found(rest, named(name), moved);
        },
        None => {
            assert forall|h: int| 0 <= h < rest.len() implies !named(name)(#[trigger] rest[h]) by {
                if h < i {
                    assert(!named(name)(fields[h]));
                } else {
                    assert(!named(name)(fields[h + 1]));
                }
            }
            lemma_first_index_absent(rest, named(name));
        },
    }
}

/// The names of the two counters differ from each other and from the names
/// of the top-level fields that the other builders read.
proof fn lemma_counters_differ()
    ensures
        "Credits"@ != "PerkPoints"@,
        "Credits"@ != "Resources"@,
        "Credits"@ != "CharacterSaves"@,
        "Credits"@ != "SchematicSave"@,
        "PerkPoints"@ != "Resources"@,
        "PerkPoints"@ != "CharacterSaves"@,
        "PerkPoints"@ != "SchematicSave"@,
{
    reveal_strlit("Credits");
    reveal_strlit("PerkPoints");
    reveal_strlit("Resources");
    reveal_strlit("CharacterSaves");
    reveal_strlit("SchematicSave");
    assert("Credits"@.len() == 7);
    assert("PerkPoints"@.len() == 10);
    assert("Resources"@.len() == 9);
    assert("CharacterSaves"@.len() == 14);
    assert("SchematicSave"@.len() == 13);
}

/// **A missing field fails its builder.** A document whose resource
/// inventory resolves fails the miscellaneous builder with `MissingEntry`
/// naming `Credits` where it has no top-level field `Credits`, and naming
/// `PerkPoints` where it has an integer `Credits` and no top-level field
/// `PerkPoints`.
pub proof fn law_missing_counter(doc: DocumentModel)
    requires
        owned_resources(doc) is Ok,
    ensures
        field_index(doc.properties, "Credits"@) is None ==> Miscellaneous::read(doc) == Err::<
            Miscellaneous,
            ErrorModel,
        >(ErrorModel::MissingEntry("Credits"@)),
        int_field(doc.properties, "Credits"@) is Ok && field_index(
            doc.properties,
            "PerkPoints"@,
        ) is None ==> Miscellaneous::read(doc) == Err::<Miscellaneous, ErrorModel>(
            ErrorModel::MissingEntry("PerkPoints"@),
        ),
{
}

/// **A missing field fails no other builder.** Taking a top-level field out
/// of a document changes nothing for a builder that reads no field of its
/// name: for the builders of the minerals and of the brewing ingredients
/// where the name is not `Resources`, for the builder of the characters where
/// it is not `CharacterSaves`, and for the builder of the schematics where it
/// is not `SchematicSave`.
pub proof fn law_field_removed(doc: DocumentModel, i: int, catalog: Seq<SchematicModel>)
    requires
        0 <= i < doc.properties.len(),
    ensures
        ({
            let name = doc.properties[i].0;
            let without = DocumentModel {
                header: doc.header,
                properties: doc.properties.remove(i),
            };
            &&& name != "Resources"@ ==> Minerals::read(without) == Minerals::read(doc)
            &&& name != "Resources"@ ==> Brewing::read(without) == Brewing::read(doc)
            &&& name != "CharacterSaves"@ ==> Characters::read(without) == Characters::read(doc)
            &&& name != "CharacterSaves"@ ==> Characters::readable(without)
                == Characters::readable(doc)
            &&& name != "SchematicSave"@ ==> Forge::read(without, catalog) == Forge::read(
                doc,
                catalog,
            )
        }),
{
    let name = doc.properties[i].0;
    if name != "Resources"@ {
        lemma_remove_other(doc.properties, i, "Resources"@, NodeKind::StructProperty);
    }
    if name != "CharacterSaves"@ {
        lemma_remove_other(doc.properties, i, "CharacterSaves"@, NodeKind::ArrayProperty);
    }
    if name != "SchematicSave"@ {
        lemma_remove_other(doc.properties, i, "SchematicSave"@, NodeKind::StructProperty);
    }
}

/// **A missing counter fails the miscellaneous builder alone.** Taking a
/// top-level field `Credits` or `PerkPoints` out of a document changes
/// nothing for the builders of the minerals, the brewing ingredients, the
/// characters and the schematics.
pub proof fn law_counter_removed(doc: DocumentModel, i: int, catalog: Seq<SchematicModel>)
    requires
        0 <= i < doc.properties.len(),
        doc.properties[i].0 == "Credits"@ || doc.properties[i].0 == "PerkPoints"@,
    ensures
        ({
            let without = DocumentModel {
                header: doc.header,
                properties: doc.properties.remove(i),
            };
            &&& Minerals::read(without) == Minerals::read(doc)
            &&& Brewing::read(without) == Brewing::read(doc)
            &&& Characters::read(without) == Characters::read(doc)
            &&& Characters::readable(without) == Characters::readable(doc)
            &&& Forge::read(without, catalog) == Forge::read(doc, catalog)
        }),
{
    lemma_counters_differ();
    law_field_removed(doc, i, catalog);
}

} // verus!
