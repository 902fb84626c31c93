//! Positions in a document: what a full path from the top level leads to.

use crate::property::{DocumentModel, NodeModel, StructModel};
use vstd::prelude::*;

verus! {

/// One step from a node to one of its children.
pub ghost enum Step {
    /// To the field at `index` of a field list, which is called `name`.
    Field { index: int, name: Seq<char> },
    /// To the element at this position of an array.
    Element(int),
    /// To the key of the entry at this position of a map.
    Key(int),
    /// To the value of the entry at this position of a map.
    Value(int),
    /// To the member at this position of a set.
    Member(int),
}

/// The field of a field list that a step leads to.
pub open spec fn field_child(fields: Seq<(Seq<char>, NodeModel)>, step: Step) -> Option<NodeModel> {
    match step {
        Step::Field { index, name } => if 0 <= index < fields.len() && fields[index].0 == name {
            Some(fields[index].1)
        } else {
            None
        },
        _ => None,
    }
}

/// The child of a node that a step leads to.
pub open spec fn child(node: NodeModel, step: Step) -> Option<NodeModel> {
    match node {
        NodeModel::StructProperty(StructModel::CustomStruct(fields)) => field_child(fields, step),
        NodeModel::ArrayProperty(items) => match step {
            Step::Element(i) => if 0 <= i < items.len() {
                Some(items[i])
            } else {
                None
            },
            _ => None,
        },
        NodeModel::MapProperty(entries) => match step {
            Step::Key(i) => if 0 <= i < entries.len() {
                Some(entries[i].0)
            } else {
                None
            },
            Step::Value(i) => if 0 <= i < entries.len() {
                Some(entries[i].1)
            } else {
                None
            },
            _ => None,
        },
        NodeModel::SetProperty(members) => match step {
            Step::Member(i) => if 0 <= i < members.len() {
                Some(members[i])
            } else {
                None
            },
            _ => None,
        },
        _ => None,
    }
}

/// The node that a path leads to from a node.
pub open spec fn node_at(node: NodeModel, path: Seq<Step>) -> Option<NodeModel>
    decreases path.len(),
{
    if path.len() == 0 {
        Some(node)
    } else {
        match child(node, path.first()) {
            None => None,
            Some(next) => node_at(next, path.drop_first()),
        }
    }
}

impl DocumentModel {
    /// The node that a full path leads to from the top level of the
    /// document.
    pub open spec fn node_at(self, path: Seq<Step>) -> Option<NodeModel> {
        if path.len() == 0 {
            None
        } else {
            match field_child(self.properties, path.first()) {
                None => None,
                Some(next) => node_at(next, path.drop_first()),
            }
        }
    }
}

/// Whether two documents hold a node of the same kind at a path, or both
/// hold none.
pub open spec fn same_kind_at(a: DocumentModel, b: DocumentModel, path: Seq<Step>) -> bool {
    match (a.node_at(path), b.node_at(path)) {
        (Some(x), Some(y)) => x.kind() == y.kind(),
        (None, None) => true,
        _ => false,
    }
}

} // verus!
