//! The catalog join: which schematics of the static catalog the player owns
//! and which are forged.

use crate::accessor::{array_field, custom_struct_field, get_array, get_custom_struct};
use crate::error::{result_model, ErrorModel, ParsingError};
use crate::guid::Guid;
use crate::property::{
    fields_model, nodes_model, Document, DocumentModel, NodeModel, PropertyNode, StructModel,
    StructValue,
};
use crate::registry::{
    find_schematic, has_guid, lookup, schematics_model, Catalog, Schematic, SchematicModel, Status,
};
use crate::search::{
    first_index, lemma_first_index_absent, lemma_first_index_congruent, lemma_first_index_found,
    lemma_first_index_sound,
};
use vstd::prelude::*;

verus! {

/// The schematics of a document, each with what the catalog says of it.
#[derive(Debug, Clone, PartialEq, Eq)]
pub struct Forge {
    /// The owned schematics that the catalog knows, marked unforged, in the
    /// order in which the document first names them.
    pub owned_schematics: Vec<Schematic>,
    /// The forged schematics that the catalog knows, marked forged, in the
    /// order in which the document first names them.
    pub forged_schematics: Vec<Schematic>,
}

/// The mathematical content of a [`Forge`].
pub ghost struct ForgeModel {
    pub owned_schematics: Seq<SchematicModel>,
    pub forged_schematics: Seq<SchematicModel>,
}

impl View for Forge {
    type V = ForgeModel;

    open spec fn view(&self) -> ForgeModel {
        ForgeModel {
            owned_schematics: schematics_model(self.owned_schematics@),
            forged_schematics: schematics_model(self.forged_schematics@),
        }
    }
}

impl Default for Forge {
    fn default() -> (forge: Self)
        ensures
            forge@ == (ForgeModel {
                owned_schematics: Seq::empty(),
                forged_schematics: Seq::empty(),
            }),
    {
        let forge = Forge { owned_schematics: Vec::new(), forged_schematics: Vec::new() };
        assert(forge@.owned_schematics =~= Seq::empty());
        assert(forge@.forged_schematics =~= Seq::empty());
        forge
    }
}

/// The identifier that one element of a schematic list holds:
/// `FailedCastError` with `StructProperty` where the element is no struct,
/// and with `Guid` where the struct holds no identifier.
pub open spec fn schematic_guid(node: NodeModel) -> Result<Seq<u8>, ErrorModel> {
    match node {
        NodeModel::StructProperty(StructModel::Guid(guid)) => Ok(guid),
        NodeModel::StructProperty(_) => Err(ErrorModel::FailedCastError("Guid"@)),
        _ => Err(ErrorModel::FailedCastError("StructProperty"@)),
    }
}

/// A list of distinct schematics with `entry` put in: in the place of the one
/// with the same identifier, or at the end where there is none.
pub open spec fn put(found: Seq<SchematicModel>, entry: SchematicModel) -> Seq<SchematicModel> {
    match first_index(found, has_guid(entry.guid())) {
        Some(j) => found.update(j, entry),
        None => found.push(entry),
    }
}

/// The join of the first `count` elements of a schematic list with the
/// catalog. An element whose identifier the catalog knows contributes the
/// catalog's entry with the given status; one whose identifier it does not
/// know contributes nothing; the first element that holds no identifier
/// fails the join.
pub open spec fn joined(
    items: Seq<NodeModel>,
    catalog: Seq<SchematicModel>,
    status: Status,
    count: nat,
) -> Result<Seq<SchematicModel>, ErrorModel>
    decreases count,
{
    if count == 0 {
        Ok(Seq::empty())
    } else {
        match (joined(items, catalog, status, (count - 1) as nat), schematic_guid(
            items[count - 1],
        )) {
            (Err(e), _) => Err(e),
            (Ok(_), Err(e)) => Err(e),
            (Ok(found), Ok(guid)) => match lookup(catalog, guid) {
                Some(entry) => Ok(put(found, entry.with_status(Some(status)))),
                None => Ok(found),
            },
        }
    }
}

/// Once an element has failed, the later ones are not read.
pub proof fn lemma_joined_stops(
    items: Seq<NodeModel>,
    catalog: Seq<SchematicModel>,
    status: Status,
    failed: nat,
    count: nat,
)
    requires
        joined(items, catalog, status, failed) is Err,
        failed <= count,
    ensures
        joined(items, catalog, status, count) == joined(items, catalog, status, failed),
    decreases count,
{
    if failed < count {
        lemma_joined_stops(items, catalog, status, failed, (count - 1) as nat);
    }
}

impl Forge {
    /// The fields of the top-level custom struct `SchematicSave`.
    pub open spec fn schematic_save(doc: DocumentModel) -> Result<
        Seq<(Seq<char>, NodeModel)>,
        ErrorModel,
    > {
        custom_struct_field(doc.properties, "SchematicSave"@)
    }

    /// The join of the array called `list` in `SchematicSave` with the
    /// catalog.
    pub open spec fn listed(
        doc: DocumentModel,
        catalog: Seq<SchematicModel>,
        list: Seq<char>,
        status: Status,
    ) -> Result<Seq<SchematicModel>, ErrorModel> {
        match Self::schematic_save(doc) {
            Err(e) => Err(e),
            Ok(fields) => match array_field(fields, list) {
                Err(e) => Err(e),
                Ok(items) => joined(items, catalog, status, items.len()),
            },
        }
    }

    /// The schematics of a document: the owned list joined first, then the
    /// forged list. The first failure is the result.
    pub open spec fn read(doc: DocumentModel, catalog: Seq<SchematicModel>) -> Result<
        ForgeModel,
        ErrorModel,
    > {
        match Self::listed(doc, catalog, "OwnedSchematics"@, Status::Unforged) {
            Err(e) => Err(e),
            Ok(owned_schematics) => match Self::listed(
                doc,
                catalog,
                "ForgedSchematics"@,
                Status::Forged,
            ) {
                Err(e) => Err(e),
                Ok(forged_schematics) => Ok(ForgeModel { owned_schematics, forged_schematics }),
            },
        }
    }

    /// Reads the schematics of a document against a catalog.
    pub fn from_gvas(doc: &Document, catalog: &Catalog) -> (r: Result<Self, ParsingError>)
        ensures
            result_model(r) == Self::read(doc@, catalog@),
    {
        let owned_schematics = Self::get_owned(doc, catalog)?;
        let forged_schematics = Self::get_forged(doc, catalog)?;
        Ok(Forge { owned_schematics, forged_schematics })
    }

    /// The fields of the top-level custom struct `SchematicSave`.
    pub fn get_schematic_save<'a>(doc: &'a Document) -> (r: Result<
        &'a Vec<(String, PropertyNode)>,
        ParsingError,
    >)
        ensures
            match r {
                Ok(fields) => Self::schematic_save(doc@) == Ok::<
                    Seq<(Seq<char>, NodeModel)>,
                    ErrorModel,
                >(fields_model(fields@)),
                Err(e) => Self::schematic_save(doc@) == Err::<
                    Seq<(Seq<char>, NodeModel)>,
                    ErrorModel,
                >(e@),
            },
    {
        get_custom_struct(&doc.properties, "SchematicSave")
    }

    /// The owned schematics that the catalog knows, each marked unforged.
    pub fn get_owned(doc: &Document, catalog: &Catalog) -> (r: Result<
        Vec<Schematic>,
        ParsingError,
    >)
        ensures
            match r {
                Ok(found) => Self::listed(doc@, catalog@, "OwnedSchematics"@, Status::Unforged)
                    == Ok::<Seq<SchematicModel>, ErrorModel>(schematics_model(found@)),
                Err(e) => Self::listed(doc@, catalog@, "OwnedSchematics"@, Status::Unforged)
                    == Err::<Seq<SchematicModel>, ErrorModel>(e@),
            },
    {
        let schematic_save = Self::get_schematic_save(doc)?;
        let properties = get_array(schematic_save, "OwnedSchematics")?;
        join(properties, catalog, Status::Unforged)
    }

    /// The forged schematics that the catalog knows, each marked forged.
    pub fn get_forged(doc: &Document, catalog: &Catalog) -> (r: Result<
        Vec<Schematic>,
        ParsingError,
    >)
        ensures
            match r {
                Ok(found) => Self::listed(doc@, catalog@, "ForgedSchematics"@, Status::Forged)
                    == Ok::<Seq<SchematicModel>, ErrorModel>(schematics_model(found@)),
                Err(e) => Self::listed(doc@, catalog@, "ForgedSchematics"@, Status::Forged)
                    == Err::<Seq<SchematicModel>, ErrorModel>(e@),
            },
    {
        let schematic_save = Self::get_schematic_save(doc)?;
        let properties = get_array(schematic_save, "ForgedSchematics")?;
        join(properties, catalog, Status::Forged)
    }
}

fn read_guid(node: &PropertyNode) -> (r: Result<Guid, ParsingError>)
    ensures
        result_model(r) == schematic_guid(node@),
{
    match node {
        PropertyNode::StructProperty(StructValue::Guid(guid)) => Ok(*guid),
        PropertyNode::StructProperty(_) => Err(ParsingError::failed_cast("Guid")),
        _ => Err(ParsingError::failed_cast("StructProperty")),
    }
}

/// Joins a schematic list with the catalog.
pub fn join(items: &Vec<PropertyNode>, catalog: &Catalog, status: Status) -> (r: Result<
    Vec<Schematic>,
    ParsingError,
>)
    ensures
        match r {
            Ok(found) => joined(nodes_model(items@), catalog@, status, items@.len()) == Ok::<
                Seq<SchematicModel>,
                ErrorModel,
            >(schematics_model(found@)),
            Err(e) => joined(nodes_model(items@), catalog@, status, items@.len()) == Err::<
                Seq<SchematicModel>,
                ErrorModel,
            >(e@),
        },
{
    let ghost model = nodes_model(items@);
    let mut schematics: Vec<Schematic> = Vec::new();
    assert(schematics_model(schematics@) =~= Seq::empty());
    let mut i: usize = 0;
    while i < items.len()
        invariant
            i <= items.len(),
            model == nodes_model(items@),
            joined(model, catalog@, status, i as nat) == Ok::<Seq<SchematicModel>, ErrorModel>(
                schematics_model(schematics@),
            ),
        decreases items.len() - i,
    {
        let guid = match read_guid(&items[i]) {
            Ok(guid) => guid,
            Err(e) => {
                proof {
                    assert(joined(model, catalog@, status, (i + 1) as nat) == Err::<
                        Seq<SchematicModel>,
                        ErrorModel,
                    >(e@));
                    lemma_joined_stops(model, catalog@, status, (i + 1) as nat, model.len());
                }
                return Err(e);
            },
        };
        if let Some(c) = catalog.get(&guid) {
            let mut schematic = c.clone();
            schematic.set_status(Some(status));
            let ghost before = schematics_model(schematics@);
            let ghost entry = schematic@;
            let key = schematic.get_guid();
            match find_schematic(&schematics, &key) {
                Some(j) => {
                    schematics[j] = schematic;
                    assert(schematics_model(schematics@) =~= before.update(j as int, entry));
                },
                None => {
                    schematics.push(schematic);
                    assert(schematics_model(schematics@) =~= before.push(entry));
                },
            }
        }
        i += 1;
    }
    Ok(schematics)
}

/// Whether one of the first `count` elements of a schematic list holds the
/// identifier `guid`.
pub open spec fn names(items: Seq<NodeModel>, count: nat, guid: Seq<u8>) -> bool {
    exists|i: int|
        0 <= i < count && #[trigger] schematic_guid(items[i]) == Ok::<Seq<u8>, ErrorModel>(guid)
}

/// Whether one of the first `count` elements of a schematic list holds no
/// identifier.
pub open spec fn malformed_before(items: Seq<NodeModel>, count: nat) -> bool {
    exists|i: int| 0 <= i < count && (#[trigger] schematic_guid(items[i])) is Err
}

/// What a join holds for an identifier: where the list names it and the
/// catalog knows it, the catalog's entry with the status; otherwise nothing.
pub open spec fn expected(
    items: Seq<NodeModel>,
    catalog: Seq<SchematicModel>,
    status: Status,
    count: nat,
    guid: Seq<u8>,
) -> Option<SchematicModel> {
    if names(items, count, guid) && lookup(catalog, guid) is Some {
        Some(lookup(catalog, guid)->Some_0.with_status(Some(status)))
    } else {
        None
    }
}

/// Putting an entry into a list of distinct schematics keeps them distinct;
/// the entry is then found under its identifier, and every other identifier
/// finds what it found before.
pub proof fn lemma_put(found: Seq<SchematicModel>, entry: SchematicModel)
    requires
        forall|a: int, b: int|
            0 <= a < b < found.len() ==> (#[trigger] found[a]).guid() != (
            #[trigger] found[b]).guid(),
    ensures
        forall|a: int, b: int|
            0 <= a < b < put(found, entry).len() ==> (#[trigger] put(found, entry)[a]).guid() != (
            #[trigger] put(found, entry)[b]).guid(),
        lookup(put(found, entry), entry.guid()) == Some(entry),
        forall|other: Seq<u8>|
            other != entry.guid() ==> #[trigger] lookup(put(found, entry), other) == lookup(
                found,
                other,
            ),
{
    let guid = entry.guid();
    let after = put(found, entry);
    lemma_first_index_sound(found, has_guid(guid));
    match first_index(found, has_guid(guid)) {
        Some(j) => {
            assert(has_guid(guid)(found[j]));
            assert forall|i: int| 0 <= i < found.len() implies has_guid(guid)(#[trigger] after[i])
                == has_guid(guid)(found[i]) by {}
            lemma_first_index_congruent(after, has_guid(guid), found, has_guid(guid));
            assert forall|other: Seq<u8>| other != guid implies #[trigger] lookup(after, other)
                == lookup(found, other) by {
                assert forall|i: int| 0 <= i < found.len() implies has_guid(other)(
                    #[trigger] after[i],
                ) == has_guid(other)(found[i]) by {}
                lemma_first_index_congruent(after, has_guid(other), found, has_guid(other));
                lemma_first_index_sound(found, has_guid(other));
                if let Some(i) = first_index(found, has_guid(other)) {
                    assert(has_guid(other)(found[i]));
                    assert(i != j);
                }
            }
        },
        None => {
            assert(after == found.push(entry));
            assert(has_guid(guid)(after[found.len() as int]));
            assert forall|i: int| 0 <= i < found.len() implies !has_guid(guid)(
                #[trigger] after[i],
            ) by {
                assert(!has_guid(guid)(found[i]));
            }
            lemma_first_index_found(after, has_guid(guid), found.len() as int);
            assert forall|a: int, b: int| 0 <= a < b < after.len() implies (
            #[trigger] after[a]).guid() != (#[trigger] after[b]).guid() by {
                if b == found.len() {
                    assert(!has_guid(guid)(found[a]));
                }
            }
            assert forall|other: Seq<u8>| other != guid implies #[trigger] lookup(after, other)
                == lookup(found, other) by {
                lemma_first_index_sound(found, has_guid(other));
                match first_index(found, has_guid(other)) {
                    Some(i) => {
                        assert(has_guid(other)(after[i]));
                        assert forall|h: int| 0 <= h < i implies !has_guid(other)(
                            #[trigger] after[h],
                        ) by {
                            assert(!has_guid(other)(found[h]));
                        }
                        lemma_first_index_found(after, has_guid(other), i);
                    },
                    None => {
                        assert forall|h: int| 0 <= h < after.len() implies !has_guid(other)(
                            #[trigger] after[h],
                        ) by {
                            if h < found.len() {
                                assert(!has_guid(other)(found[h]));
                            }
                        }
                        lemma_first_index_absent(after, has_guid(other));
                    },
                }
            }
        },
    }
}

/// **The skip policy of the join.** A join fails exactly where an element of
/// the list holds no identifier; an identifier that the catalog does not
/// know raises no error and contributes nothing. Where the join succeeds,
/// it holds no identifier twice, and under each identifier it holds the
/// catalog's entry with the status where the list names the identifier and
/// the catalog knows it, and nothing otherwise.
pub proof fn law_join(
    items: Seq<NodeModel>,
    catalog: Seq<SchematicModel>,
    status: Status,
    count: nat,
)
    requires
        count <= items.len(),
    ensures
        joined(items, catalog, status, count) is Err <==> malformed_before(items, count),
        joined(items, catalog, status, count) matches Ok(found) ==> {
            &&& forall|a: int, b: int|
                0 <= a < b < found.len() ==> (#[trigger] found[a]).guid() != (
                #[trigger] found[b]).guid()
            &&& forall|guid: Seq<u8>| #[trigger]
                lookup(found, guid) == expected(items, catalog, status, count, guid)
        },
    decreases count,
{
    if count == 0 {
        let found = Seq::<SchematicModel>::empty();
        assert forall|guid: Seq<u8>| #[trigger]
            lookup(found, guid) == expected(items, catalog, status, count, guid) by {
            lemma_first_index_absent(found, has_guid(guid));
        }
    } else {
        let fewer = (count - 1) as nat;
        law_join(items, catalog, status, fewer);
        let last = schematic_guid(items[count - 1]);
        if malformed_before(items, fewer) {
            let i = choose|i: int| 0 <= i < fewer && (#[trigger] schematic_guid(items[i])) is Err;
            assert(0 <= i < count && schematic_guid(items[i]) is Err);
        }
        if last is Err {
            assert(malformed_before(items, count));
        }
        if malformed_before(items, count) && !malformed_before(items, fewer) {
            let i = choose|i: int| 0 <= i < count && (#[trigger] schematic_guid(items[i])) is Err;
            if i < fewer {
                assert(malformed_before(items, fewer));
            }
            assert(last is Err);
        }
        if let Ok(before) = joined(items, catalog, status, fewer) {
            if let Ok(guid) = last {
                let found = joined(items, catalog, status, count)->Ok_0;
                assert(names(items, count, guid));
                assert forall|other: Seq<u8>|
                    names(items, fewer, other) implies names(items, count, other) by {
                    let i = choose|i: int|
                        0 <= i < fewer && #[trigger] schematic_guid(items[i]) == Ok::<
                            Seq<u8>,
                            ErrorModel,
                        >(other);
                    assert(0 <= i < count && schematic_guid(items[i]) == Ok::<
                        Seq<u8>,
                        ErrorModel,
                    >(other));
                }
                assert forall|other: Seq<u8>|
                    other != guid && names(items, count, other) implies names(
                    items,
                    fewer,
                    other,
                ) by {
                    let i = choose|i: int|
                        0 <= i < count && #[trigger] schematic_guid(items[i]) == Ok::<
                            Seq<u8>,
                            ErrorModel,
                        >(other);
                    assert(i != count - 1);
                    assert(0 <= i < fewer && schematic_guid(items[i]) == Ok::<
                        Seq<u8>,
                        ErrorModel,
                    >(other));
                }
                lemma_first_index_sound(catalog, has_guid(guid));
                match lookup(catalog, guid) {
                    Some(known) => {
                        let entry = known.with_status(Some(status));
                        assert(has_guid(guid)(known));
                        assert(entry.guid() == guid);
                        lemma_put(before, entry);
                        assert forall|other: Seq<u8>| #[trigger]
                            lookup(found, other) == expected(
                                items,
                                catalog,
                                status,
                                count,
                                other,
                            ) by {
                            if other != guid {
                                assert(lookup(found, other) == lookup(before, other));
                                assert(lookup(before, other) == expected(
                                    items,
                                    catalog,
                                    status,
                                    fewer,
                                    other,
                                ));
                            }
                        }
                    },
                    None => {
                        assert forall|other: Seq<u8>| #[trigger]
                            lookup(found, other) == expected(
                                items,
                                catalog,
                                status,
                                count,
                                other,
                            ) by {
                            assert(lookup(before, other) == expected(
                                items,
                                catalog,
                                status,
                                fewer,
                                other,
                            ));
                        }
                    },
                }
            }
        }
    }
}

} // verus!
