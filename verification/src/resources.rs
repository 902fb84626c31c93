//! The resource inventory: the one nested map, keyed by identifier, that
//! holds every named resource quantity of a document.

use crate::accessor::{custom_struct_field, field_index, get_custom_struct, get_mut, named};
use crate::error::{result_model, ErrorModel, ParsingError};
use crate::guid::{guid_eq, guid_text, guid_to_string, Guid};
use crate::property::{
    entries_model, fields_model, lemma_entries_model_update, lemma_fields_model_update, Document,
    DocumentModel, FloatLeaf, NodeKind, NodeModel, PropertyNode, StructModel, StructValue,
};
use crate::search::{
    first_index, lemma_first_index_absent, lemma_first_index_found, lemma_first_index_sound,
};
use vstd::prelude::*;

verus! {

/// The entries of the resource map: the top-level struct `Resources` is a
/// custom struct whose first field is a map. `FailedCastError` names the
/// kind that was expected at the hop that does not match.
pub open spec fn resource_entries(doc: DocumentModel) -> Result<
    Seq<(NodeModel, NodeModel)>,
    ErrorModel,
> {
    match custom_struct_field(doc.properties, "Resources"@) {
        Err(e) => Err(e),
        Ok(fields) => if fields.len() > 0 && fields[0].1 is MapProperty {
            Ok(fields[0].1->MapProperty_0)
        } else {
            Err(ErrorModel::FailedCastError("MapProperty"@))
        },
    }
}

/// One entry of the resource map as an identifier and a quantity.
pub open spec fn resource_entry(entry: (NodeModel, NodeModel)) -> Result<
    (Seq<u8>, FloatLeaf),
    ErrorModel,
> {
    match entry {
        (NodeModel::StructProperty(key), NodeModel::FloatProperty(value)) => match key {
            StructModel::Guid(guid) => Ok((guid, value)),
            _ => Err(ErrorModel::FailedCastError("Guid"@)),
        },
        (NodeModel::StructProperty(_), _) => Err(ErrorModel::FailedCastError("FloatProperty"@)),
        _ => Err(ErrorModel::FailedCastError("StructProperty"@)),
    }
}

/// The entries that are not an identifier with a quantity.
pub open spec fn malformed() -> spec_fn((NodeModel, NodeModel)) -> bool {
    |entry: (NodeModel, NodeModel)| resource_entry(entry) is Err
}

/// The entries of a resource map as identifiers with quantities, in document
/// order, or the error of the first entry that is not one.
pub open spec fn resource_index(entries: Seq<(NodeModel, NodeModel)>) -> Result<
    Seq<(Seq<u8>, FloatLeaf)>,
    ErrorModel,
> {
    match first_index(entries, malformed()) {
        Some(i) => Err(resource_entry(entries[i])->Err_0),
        None => Ok(Seq::new(entries.len(), |i: int| resource_entry(entries[i])->Ok_0)),
    }
}

/// The resource inventory of a document.
pub open spec fn owned_resources(doc: DocumentModel) -> Result<
    Seq<(Seq<u8>, FloatLeaf)>,
    ErrorModel,
> {
    match resource_entries(doc) {
        Err(e) => Err(e),
        Ok(entries) => resource_index(entries),
    }
}

/// The model of an inventory held as identifiers with quantities.
pub open spec fn index_model(index: Seq<(Guid, FloatLeaf)>) -> Seq<(Seq<u8>, FloatLeaf)> {
    Seq::new(index.len(), |i: int| (index[i].0@, index[i].1))
}

/// The inventory entries for the identifier `guid`.
pub open spec fn identified(guid: Seq<u8>) -> spec_fn((Seq<u8>, FloatLeaf)) -> bool {
    |entry: (Seq<u8>, FloatLeaf)| entry.0 == guid
}

/// The quantity held for `guid`: that of the first entry with this
/// identifier, or `MissingEntry` with the identifier's text.
pub open spec fn resource_value(index: Seq<(Seq<u8>, FloatLeaf)>, guid: Seq<u8>) -> Result<
    FloatLeaf,
    ErrorModel,
> {
    match first_index(index, identified(guid)) {
        Some(i) => Ok(index[i].1),
        None => Err(ErrorModel::MissingEntry(guid_text(guid))),
    }
}

/// The bytes of each identifier of a list.
pub open spec fn guids_model(guids: Seq<Guid>) -> Seq<Seq<u8>> {
    Seq::new(guids.len(), |i: int| guids[i]@)
}

/// The identifiers for which an inventory holds nothing.
pub open spec fn missing_from(index: Seq<(Seq<u8>, FloatLeaf)>) -> spec_fn(Seq<u8>) -> bool {
    |guid: Seq<u8>| resource_value(index, guid) is Err
}

/// The quantities held for each of `guids`, in their order, or
/// `MissingEntry` for the first of them that the inventory does not hold.
pub open spec fn resource_values(index: Seq<(Seq<u8>, FloatLeaf)>, guids: Seq<Seq<u8>>) -> Result<
    Seq<FloatLeaf>,
    ErrorModel,
> {
    match first_index(guids, missing_from(index)) {
        Some(k) => Err(ErrorModel::MissingEntry(guid_text(guids[k]))),
        None => Ok(Seq::new(guids.len(), |k: int| resource_value(index, guids[k])->Ok_0)),
    }
}

fn entries_of<'a>(doc: &'a Document) -> (r: Result<
    &'a Vec<(PropertyNode, PropertyNode)>,
    ParsingError,
>)
    ensures
        match r {
            Ok(entries) => resource_entries(doc@) == Ok::<Seq<(NodeModel, NodeModel)>, ErrorModel>(
                entries_model(entries@),
            ),
            Err(e) => resource_entries(doc@) == Err::<Seq<(NodeModel, NodeModel)>, ErrorModel>(
                e@,
            ),
        },
{
    let fields = get_custom_struct(&doc.properties, "Resources")?;
    if fields.len() == 0 {
        return Err(ParsingError::failed_cast("MapProperty"));
    }
    match &fields[0].1 {
        PropertyNode::MapProperty(entries) => Ok(entries),
        _ => Err(ParsingError::failed_cast("MapProperty")),
    }
}

fn read_entry(entry: &(PropertyNode, PropertyNode)) -> (r: Result<(Guid, FloatLeaf), ParsingError>)
    ensures
        match r {
            Ok(pair) => resource_entry((entry.0@, entry.1@)) == Ok::<
                (Seq<u8>, FloatLeaf),
                ErrorModel,
            >((pair.0@, pair.1)),
            Err(e) => resource_entry((entry.0@, entry.1@)) == Err::<
                (Seq<u8>, FloatLeaf),
                ErrorModel,
            >(e@),
        },
{
    match entry {
        (PropertyNode::StructProperty(key), PropertyNode::FloatProperty(value)) => match key {
            StructValue::Guid(guid) => Ok((*guid, *value)),
            _ => Err(ParsingError::failed_cast("Guid")),
        },
        (PropertyNode::StructProperty(_), _) => Err(ParsingError::failed_cast("FloatProperty")),
        _ => Err(ParsingError::failed_cast("StructProperty")),
    }
}

fn read_entries(entries: &Vec<(PropertyNode, PropertyNode)>) -> (r: Result<
    Vec<(Guid, FloatLeaf)>,
    ParsingError,
>)
    ensures
        match r {
            Ok(index) => resource_index(entries_model(entries@)) == Ok::<
                Seq<(Seq<u8>, FloatLeaf)>,
                ErrorModel,
            >(index_model(index@)),
            Err(e) => resource_index(entries_model(entries@)) == Err::<
                Seq<(Seq<u8>, FloatLeaf)>,
                ErrorModel,
            >(e@),
        },
{
    let ghost model = entries_model(entries@);
    let mut index: Vec<(Guid, FloatLeaf)> = Vec::new();
    let mut i: usize = 0;
    while i < entries.len()
        invariant
            i <= entries.len(),
            model == entries_model(entries@),
            index@.len() == i,
            forall|j: int| 0 <= j < i ==> !malformed()(#[trigger] model[j]),
            forall|j: int|
                0 <= j < i ==> resource_entry(model[j])->Ok_0 == (
                    (#[trigger] index@[j]).0@,
                    index@[j].1,
                ),
        decreases entries.len() - i,
    {
        match read_entry(&entries[i]) {
            Ok(pair) => {
                index.push(pair);
            },
            Err(e) => {
                proof {
                    assert(malformed()(model[i as int]));
                    lemma_first_index_found(model, malformed(), i as int);
                }
                return Err(e);
            },
        }
        i += 1;
    }
    proof {
        lemma_first_index_absent(model, malformed());
        assert(index_model(index@) =~= Seq::new(
            model.len(),
            |i: int| resource_entry(model[i])->Ok_0,
        ));
    }
    Ok(index)
}

/// The resource inventory of a document: identifiers with quantities, in
/// document order.
pub fn get_owned_resources(doc: &Document) -> (r: Result<Vec<(Guid, FloatLeaf)>, ParsingError>)
    ensures
        match r {
            Ok(index) => owned_resources(doc@) == Ok::<Seq<(Seq<u8>, FloatLeaf)>, ErrorModel>(
                index_model(index@),
            ),
            Err(e) => owned_resources(doc@) == Err::<Seq<(Seq<u8>, FloatLeaf)>, ErrorModel>(e@),
        },
{
    let entries = entries_of(doc)?;
    read_entries(entries)
}

/// The quantity that an inventory holds for `guid`.
pub fn get_resource(index: &Vec<(Guid, FloatLeaf)>, guid: &Guid) -> (r: Result<
    FloatLeaf,
    ParsingError,
>)
    ensures
        result_model(r) == resource_value(index_model(index@), guid@),
{
    let ghost model = index_model(index@);
    let mut i: usize = 0;
    while i < index.len()
        invariant
            i <= index.len(),
            model == index_model(index@),
            forall|j: int| 0 <= j < i ==> !identified(guid@)(#[trigger] model[j]),
        decreases index.len() - i,
    {
        if guid_eq(&index[i].0, guid) {
            proof {
                assert(identified(guid@)(model[i as int]));
                lemma_first_index_found(model, identified(guid@), i as int);
            }
            return Ok(index[i].1);
        }
        i += 1;
    }
    proof {
        lemma_first_index_absent(model, identified(guid@));
    }
    let text = guid_to_string(guid);
    Err(ParsingError::missing_entry(text.as_str()))
}

/// The quantities that an inventory holds for each of `guids`.
pub fn get_resources(index: &Vec<(Guid, FloatLeaf)>, guids: &[Guid]) -> (r: Result<
    Vec<FloatLeaf>,
    ParsingError,
>)
    ensures
        result_model(r) == resource_values(index_model(index@), guids_model(guids@)),
{
    let ghost model = index_model(index@);
    let ghost wanted = guids_model(guids@);
    let mut values: Vec<FloatLeaf> = Vec::new();
    let mut k: usize = 0;
    while k < guids.len()
        invariant
            k <= guids.len(),
            model == index_model(index@),
            wanted == guids_model(guids@),
            values@.len() == k,
            forall|j: int| 0 <= j < k ==> !missing_from(model)(#[trigger] wanted[j]),
            forall|j: int|
                0 <= j < k ==> resource_value(model, wanted[j]) == Ok::<FloatLeaf, ErrorModel>(
                    #[trigger] values@[j],
                ),
        decreases guids.len() - k,
    {
        match get_resource(index, &guids[k]) {
            Ok(value) => {
                values.push(value);
            },
            Err(e) => {
                proof {
                    assert(missing_from(model)(wanted[k as int]));
                    lemma_first_index_found(wanted, missing_from(model), k as int);
                }
                return Err(e);
            },
        }
        k += 1;
    }
    proof {
        lemma_first_index_absent(wanted, missing_from(model));
        assert(values@ =~= Seq::new(
            wanted.len(),
            |k: int| resource_value(model, wanted[k])->Ok_0,
        ));
    }
    Ok(values)
}

/// The document with the entries of its resource map replaced.
pub open spec fn with_resource_entries(
    doc: DocumentModel,
    entries: Seq<(NodeModel, NodeModel)>,
) -> DocumentModel
    recommends
        resource_entries(doc) is Ok,
{
    let i = field_index(doc.properties, "Resources"@).unwrap();
    let fields = custom_struct_field(doc.properties, "Resources"@)->Ok_0;
    let first = (fields[0].0, NodeModel::MapProperty(entries));
    let resources = NodeModel::StructProperty(StructModel::CustomStruct(fields.update(0, first)));
    DocumentModel {
        header: doc.header,
        properties: doc.properties.update(i, ("Resources"@, resources)),
    }
}

/// The map entries whose key is the identifier `guid`.
pub open spec fn keyed(guid: Seq<u8>) -> spec_fn((NodeModel, NodeModel)) -> bool {
    |entry: (NodeModel, NodeModel)| entry.0 == NodeModel::StructProperty(StructModel::Guid(guid))
}

/// The position of the first entry of a resource map whose key is `guid`.
pub open spec fn key_index(entries: Seq<(NodeModel, NodeModel)>, guid: Seq<u8>) -> Option<int> {
    first_index(entries, keyed(guid))
}

/// The model of a list of quantities to write, each under its identifier.
pub open spec fn writes_model(writes: Seq<(Guid, FloatLeaf)>) -> Seq<(Seq<u8>, FloatLeaf)> {
    index_model(writes)
}

/// The entries of a resource map after the first `count` of `writes` were
/// made in order, and whether they succeeded. Each write replaces the value
/// of the first entry under its identifier by the quantity; the first write
/// whose identifier has no entry fails with `MissingEntry`, and no later
/// write is made.
pub open spec fn written(
    entries: Seq<(NodeModel, NodeModel)>,
    writes: Seq<(Seq<u8>, FloatLeaf)>,
    count: nat,
) -> (Seq<(NodeModel, NodeModel)>, Result<(), ErrorModel>)
    decreases count,
{
    if count == 0 {
        (entries, Ok(()))
    } else {
        let (before, outcome) = written(entries, writes, (count - 1) as nat);
        let (guid, value) = writes[count - 1];
        match (outcome, key_index(before, guid)) {
            (Err(e), _) => (before, Err(e)),
            (Ok(_), None) => (before, Err(ErrorModel::MissingEntry(guid_text(guid)))),
            (Ok(_), Some(j)) => (
                before.update(j, (before[j].0, NodeModel::FloatProperty(value))),
                Ok(()),
            ),
        }
    }
}

/// The entries of a resource map after `writes` were made in order.
pub open spec fn write_resources(
    entries: Seq<(NodeModel, NodeModel)>,
    writes: Seq<(Seq<u8>, FloatLeaf)>,
) -> (Seq<(NodeModel, NodeModel)>, Result<(), ErrorModel>) {
    written(entries, writes, writes.len())
}

/// The entries of the resource map, for overwriting quantities in place.
/// It fails exactly as [`get_owned_resources`] does. What the caller writes
/// into the entries is all that changes in the document.
pub fn get_owned_resources_mut<'a>(doc: &'a mut Document) -> (r: Result<
    &'a mut Vec<(PropertyNode, PropertyNode)>,
    ParsingError,
>)
    ensures
        match r {
            Ok(entries) => {
                &&& owned_resources(old(doc)@) is Ok
                &&& resource_entries(old(doc)@) == Ok::<Seq<(NodeModel, NodeModel)>, ErrorModel>(
                    entries_model(entries@),
                )
                &&& final(doc)@ == with_resource_entries(
                    old(doc)@,
                    entries_model(final(entries)@),
                )
            },
            Err(e) => {
                &&& owned_resources(old(doc)@) == Err::<Seq<(Seq<u8>, FloatLeaf)>, ErrorModel>(e@)
                &&& final(doc)@ == old(doc)@
            },
        },
{
    proof {
        let top = fields_model(doc.properties@);
        lemma_first_index_sound(top, named("Resources"@));
        if let Some(i) = field_index(top, "Resources"@) {
            assert(top.update(i, top[i]) =~= top);
        }
    }
    let node = get_mut(&mut doc.properties, "Resources", NodeKind::StructProperty)?;
    let fields = match node {
        PropertyNode::StructProperty(StructValue::CustomStruct(fields)) => fields,
        _ => {
            return Err(ParsingError::failed_cast("CustomStruct"));
        },
    };
    proof {
        let inner = fields_model(fields@);
        assert(inner.len() == fields@.len());
        if inner.len() > 0 {
            assert(inner.update(0, inner[0]) =~= inner);
        }
    }
    if fields.len() == 0 {
        return Err(ParsingError::failed_cast("MapProperty"));
    }
    let ghost before = fields@;
    let first = &mut fields[0];
    proof {
        lemma_fields_model_update(before, 0, *final(first));
    }
    let entries = match &mut first.1 {
        PropertyNode::MapProperty(entries) => entries,
        _ => {
            return Err(ParsingError::failed_cast("MapProperty"));
        },
    };
    match read_entries(entries) {
        Ok(_) => Ok(entries),
        Err(e) => Err(e),
    }
}

fn is_key(node: &PropertyNode, guid: &Guid) -> (same: bool)
    ensures
        same == (node@ == NodeModel::StructProperty(StructModel::Guid(guid@))),
{
    match node {
        PropertyNode::StructProperty(StructValue::Guid(key)) => guid_eq(key, guid),
        _ => false,
    }
}

/// The value of the first entry of a resource map whose key is `guid`, for
/// overwriting in place, or `MissingEntry` with the identifier's text. The
/// entries change at that value only, and only by what the caller writes.
pub fn get_resource_mut<'a>(entries: &'a mut Vec<(PropertyNode, PropertyNode)>, guid: &Guid) -> (r:
    Result<&'a mut PropertyNode, ParsingError>)
    ensures
        match r {
            Ok(value) => {
                let before = entries_model(old(entries)@);
                &&& key_index(before, guid@) is Some
                &&& (*value)@ == before[key_index(before, guid@)->Some_0].1
                &&& entries_model(final(entries)@) == before.update(
                    key_index(before, guid@)->Some_0,
                    (before[key_index(before, guid@)->Some_0].0, (*final(value))@),
                )
            },
            Err(e) => {
                &&& key_index(entries_model(old(entries)@), guid@) is None
                &&& e@ == ErrorModel::MissingEntry(guid_text(guid@))
                &&& entries_model(final(entries)@) == entries_model(old(entries)@)
            },
        },
{
    let ghost model = entries_model(entries@);
    let mut i: usize = 0;
    while i < entries.len()
        invariant
            i <= entries.len(),
            model == entries_model(entries@),
            forall|j: int| 0 <= j < i ==> !keyed(guid@)(#[trigger] model[j]),
        ensures
            i < entries.len() ==> keyed(guid@)(model[i as int]),
        decreases entries.len() - i,
    {
        if is_key(&entries[i].0, guid) {
            break;
        }
        i += 1;
    }
    if i < entries.len() {
        let ghost before = entries@;
        let entry = &mut entries[i];
        proof {
            assert(keyed(guid@)(model[i as int]));
            lemma_first_index_found(model, keyed(guid@), i as int);
            lemma_entries_model_update(before, i as int, *final(entry));
        }
        Ok(&mut entry.1)
    } else {
        proof {
            lemma_first_index_absent(model, keyed(guid@));
        }
        let text = guid_to_string(guid);
        Err(ParsingError::missing_entry(text.as_str()))
    }
}

/// Once a write has failed, the later ones change nothing.
pub proof fn lemma_written_stops(
    entries: Seq<(NodeModel, NodeModel)>,
    writes: Seq<(Seq<u8>, FloatLeaf)>,
    failed: nat,
    count: nat,
)
    requires
        written(entries, writes, failed).1 is Err,
        failed <= count,
    ensures
        written(entries, writes, count) == written(entries, writes, failed),
    decreases count,
{
    if failed < count {
        lemma_written_stops(entries, writes, failed, (count - 1) as nat);
    }
}

/// Writes quantities into a resource map, each under its identifier, in
/// order, and stops at the first identifier that the map does not hold.
pub fn set_resources(entries: &mut Vec<(PropertyNode, PropertyNode)>, writes: &[(Guid, FloatLeaf)])
    -> (r: Result<(), ParsingError>)
    ensures
        (entries_model(final(entries)@), result_model(r)) == write_resources(
            entries_model(old(entries)@),
            writes_model(writes@),
        ),
{
    let ghost start = entries_model(entries@);
    let ghost model = writes_model(writes@);
    let mut k: usize = 0;
    while k < writes.len()
        invariant
            k <= writes.len(),
            model == writes_model(writes@),
            start == entries_model(old(entries)@),
            written(start, model, k as nat) == (entries_model(entries@), Ok::<(), ErrorModel>(())),
        decreases writes.len() - k,
    {
        let guid: &Guid = &writes[k].0;
        let value: FloatLeaf = writes[k].1;
        match get_resource_mut(entries, guid) {
            Ok(slot) => {
                *slot = PropertyNode::FloatProperty(value);
            },
            Err(e) => {
                proof {
                    assert(model[k as int] == (guid@, value));
                    assert(written(start, model, (k + 1) as nat) == (
                        entries_model(entries@),
                        Err::<(), ErrorModel>(e@),
                    ));
                    lemma_written_stops(start, model, (k + 1) as nat, model.len());
                }
                return Err(e);
            },
        }
        k += 1;
    }
    Ok(())
}

} // verus!
