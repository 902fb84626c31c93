//! Typed access by name into a list of fields: the top level of a document
//! or the fields of a custom struct.

use crate::error::{result_model, ErrorModel, ParsingError};
use crate::property::{
    fields_model, lemma_fields_model_update, nodes_model, NodeKind, NodeModel, PropertyNode,
    StructModel, StructValue,
};
use crate::search::{first_index, lemma_first_index_absent, lemma_first_index_found};
use vstd::prelude::*;

verus! {

/// The fields called `name`.
pub open spec fn named(name: Seq<char>) -> spec_fn((Seq<char>, NodeModel)) -> bool {
    |field: (Seq<char>, NodeModel)| field.0 == name
}

/// The position of the first field called `name`.
pub open spec fn field_index(fields: Seq<(Seq<char>, NodeModel)>, name: Seq<char>) -> Option<int> {
    first_index(fields, named(name))
}

/// The field called `name`, narrowed to `kind`: the first field of that
/// name, or `MissingEntry` with the name where there is none, or
/// `FailedCastError` with the kind's name where the field is of another kind.
pub open spec fn get_spec(fields: Seq<(Seq<char>, NodeModel)>, name: Seq<char>, kind: NodeKind)
    -> Result<NodeModel, ErrorModel> {
    match field_index(fields, name) {
        None => Err(ErrorModel::MissingEntry(name)),
        Some(i) => if fields[i].1.kind() == kind {
            Ok(fields[i].1)
        } else {
            Err(ErrorModel::FailedCastError(kind.name_spec()))
        },
    }
}

/// The position of the first field called `name`.
pub fn find_field(fields: &Vec<(String, PropertyNode)>, name: &str) -> (found: Option<usize>)
    ensures
        match found {
            Some(i) => field_index(fields_model(fields@), name@) == Some(i as int),
            None => field_index(fields_model(fields@), name@) is None,
        },
{
    let wanted = name.to_owned();
    let ghost model = fields_model(fields@);
    let mut i: usize = 0;
    while i < fields.len()
        invariant
            i <= fields.len(),
            wanted@ == name@,
            model == fields_model(fields@),
            forall|j: int| 0 <= j < i ==> !named(name@)(#[trigger] model[j]),
        decreases fields.len() - i,
    {
        if fields[i].0 == wanted {
            proof {
                assert(named(name@)(model[i as int]));
                lemma_first_index_found(model, named(name@), i as int);
            }
            return Some(i);
        }
        i += 1;
    }
    proof {
        lemma_first_index_absent(model, named(name@));
    }
    None
}

/// The field called `name`, narrowed to `kind`.
pub fn get<'a>(fields: &'a Vec<(String, PropertyNode)>, name: &str, kind: NodeKind) -> (r: Result<
    &'a PropertyNode,
    ParsingError,
>)
    ensures
        result_model(r) == get_spec(fields_model(fields@), name@, kind),
{
    match find_field(fields, name) {
        None => Err(ParsingError::missing_entry(name)),
        Some(i) => {
            let node = &fields[i].1;
            if node.kind() == kind {
                Ok(node)
            } else {
                Err(ParsingError::failed_cast(kind.name()))
            }
        },
    }
}

/// The field called `name`, narrowed to `kind`, for overwriting in place.
/// The list changes at that field only, and only by what the caller writes.
pub fn get_mut<'a>(fields: &'a mut Vec<(String, PropertyNode)>, name: &str, kind: NodeKind) -> (r:
    Result<&'a mut PropertyNode, ParsingError>)
    ensures
        match r {
            Ok(node) => {
                &&& get_spec(fields_model(old(fields)@), name@, kind) == Ok::<
                    NodeModel,
                    ErrorModel,
                >((*node)@)
                &&& fields_model(final(fields)@) == fields_model(old(fields)@).update(
                    field_index(fields_model(old(fields)@), name@).unwrap(),
                    (name@, (*final(node))@),
                )
            },
            Err(e) => {
                &&& get_spec(fields_model(old(fields)@), name@, kind) == Err::<
                    NodeModel,
                    ErrorModel,
                >(e@)
                &&& fields_model(final(fields)@) == fields_model(old(fields)@)
            },
        },
{
    match find_field(fields, name) {
        None => Err(ParsingError::missing_entry(name)),
        Some(i) => {
            if fields[i].1.kind() == kind {
                let ghost before = fields@;
                let field = &mut fields[i];
                proof {
                    lemma_fields_model_update(before, i as int, *final(field));
                }
                Ok(&mut field.1)
            } else {
                Err(ParsingError::failed_cast(kind.name()))
            }
        },
    }
}

/// The integer field called `name`.
pub open spec fn int_field(fields: Seq<(Seq<char>, NodeModel)>, name: Seq<char>) -> Result<
    i32,
    ErrorModel,
> {
    match get_spec(fields, name, NodeKind::IntProperty) {
        Ok(node) => Ok(node->IntProperty_0),
        Err(e) => Err(e),
    }
}

/// The struct field called `name`.
pub open spec fn struct_field(fields: Seq<(Seq<char>, NodeModel)>, name: Seq<char>) -> Result<
    StructModel,
    ErrorModel,
> {
    match get_spec(fields, name, NodeKind::StructProperty) {
        Ok(node) => Ok(node->StructProperty_0),
        Err(e) => Err(e),
    }
}

/// The elements of the array field called `name`.
pub open spec fn array_field(fields: Seq<(Seq<char>, NodeModel)>, name: Seq<char>) -> Result<
    Seq<NodeModel>,
    ErrorModel,
> {
    match get_spec(fields, name, NodeKind::ArrayProperty) {
        Ok(node) => Ok(node->ArrayProperty_0),
        Err(e) => Err(e),
    }
}

/// The fields of the custom struct called `name`: `FailedCastError` with
/// `CustomStruct` where the struct holds another payload.
pub open spec fn custom_struct_field(fields: Seq<(Seq<char>, NodeModel)>, name: Seq<char>)
    -> Result<Seq<(Seq<char>, NodeModel)>, ErrorModel> {
    match struct_field(fields, name) {
        Ok(StructModel::CustomStruct(inner)) => Ok(inner),
        Ok(_) => Err(ErrorModel::FailedCastError("CustomStruct"@)),
        Err(e) => Err(e),
    }
}

/// The integer field called `name`.
pub fn get_int(fields: &Vec<(String, PropertyNode)>, name: &str) -> (r: Result<i32, ParsingError>)
    ensures
        result_model(r) == int_field(fields_model(fields@), name@),
{
    match find_field(fields, name) {
        None => Err(ParsingError::missing_entry(name)),
        Some(i) => match &fields[i].1 {
            PropertyNode::IntProperty(value) => Ok(*value),
            _ => Err(ParsingError::failed_cast(NodeKind::IntProperty.name())),
        },
    }
}

/// The struct field called `name`.
pub fn get_struct<'a>(fields: &'a Vec<(String, PropertyNode)>, name: &str) -> (r: Result<
    &'a StructValue,
    ParsingError,
>)
    ensures
        result_model(r) == struct_field(fields_model(fields@), name@),
{
    match find_field(fields, name) {
        None => Err(ParsingError::missing_entry(name)),
        Some(i) => match &fields[i].1 {
            PropertyNode::StructProperty(value) => Ok(value),
            _ => Err(ParsingError::failed_cast(NodeKind::StructProperty.name())),
        },
    }
}

/// The elements of the array field called `name`.
pub fn get_array<'a>(fields: &'a Vec<(String, PropertyNode)>, name: &str) -> (r: Result<
    &'a Vec<PropertyNode>,
    ParsingError,
>)
    ensures
        match r {
            Ok(items) => array_field(fields_model(fields@), name@) == Ok::<
                Seq<NodeModel>,
                ErrorModel,
            >(nodes_model(items@)),
            Err(e) => array_field(fields_model(fields@), name@) == Err::<
                Seq<NodeModel>,
                ErrorModel,
            >(e@),
        },
{
    match find_field(fields, name) {
        None => Err(ParsingError::missing_entry(name)),
        Some(i) => match &fields[i].1 {
            PropertyNode::ArrayProperty(items) => Ok(items),
            _ => Err(ParsingError::failed_cast(NodeKind::ArrayProperty.name())),
        },
    }
}

/// The fields of the custom struct called `name`.
pub fn get_custom_struct<'a>(fields: &'a Vec<(String, PropertyNode)>, name: &str) -> (r: Result<
    &'a Vec<(String, PropertyNode)>,
    ParsingError,
>)
    ensures
        match r {
            Ok(inner) => custom_struct_field(fields_model(fields@), name@) == Ok::<
                Seq<(Seq<char>, NodeModel)>,
                ErrorModel,
            >(fields_model(inner@)),
            Err(e) => custom_struct_field(fields_model(fields@), name@) == Err::<
                Seq<(Seq<char>, NodeModel)>,
                ErrorModel,
            >(e@),
        },
{
    match get_struct(fields, name)? {
        StructValue::CustomStruct(inner) => Ok(inner),
        _ => Err(ParsingError::failed_cast("CustomStruct")),
    }
}

} // verus!
