//! The property graph: the decoded document as a tree of named, tagged
//! values, together with the mathematical model that contracts speak of.

use crate::guid::Guid;
use vstd::prelude::*;

verus! {

/// A 32-bit floating-point leaf, held as its IEEE-754 bit pattern. The
/// library moves such values around and never computes with them.
#[derive(Clone, Copy, Debug, Default, PartialEq, Eq, Hash, Structural)]
pub struct FloatLeaf {
    pub bits: u32,
}

impl View for FloatLeaf {
    type V = FloatLeaf;

    open spec fn view(&self) -> FloatLeaf {
        *self
    }
}

/// The tag of a [`PropertyNode`].
#[derive(Clone, Copy, Debug, PartialEq, Eq, Hash, Structural)]
pub enum NodeKind {
    IntProperty,
    FloatProperty,
    BoolProperty,
    ByteProperty,
    StrProperty,
    StructProperty,
    ArrayProperty,
    MapProperty,
    SetProperty,
    Opaque,
}

/// What a struct node holds.
#[derive(Debug, PartialEq, Eq)]
pub enum StructValue {
    /// A 16-byte identifier.
    Guid(Guid),
    /// A point in time, in ticks.
    DateTime(u64),
    /// An application-defined record: named fields in document order.
    CustomStruct(Vec<(String, PropertyNode)>),
    /// Any other fixed-layout payload, as its encoded bytes.
    Other(Vec<u8>),
}

/// One node of the property graph.
#[derive(Debug, PartialEq, Eq)]
pub enum PropertyNode {
    IntProperty(i32),
    FloatProperty(FloatLeaf),
    BoolProperty(bool),
    ByteProperty(u8),
    StrProperty(String),
    StructProperty(StructValue),
    /// Elements in document order.
    ArrayProperty(Vec<PropertyNode>),
    /// Key and value pairs in document order.
    MapProperty(Vec<(PropertyNode, PropertyNode)>),
    /// Members in document order.
    SetProperty(Vec<PropertyNode>),
    /// A leaf of a kind that the library does not interpret, as its encoded
    /// bytes.
    Opaque(Vec<u8>),
}

/// A decoded save document. Its fields are open: any tree of nodes is a
/// document, and [`Document::is_well_formed`] tells whether the names are
/// distinct within each list of fields, as they are in a decoded file.
#[derive(Debug, PartialEq, Eq)]
pub struct Document {
    /// The encoded header. It is carried along and never inspected.
    pub header: Vec<u8>,
    /// The top-level fields in document order.
    pub properties: Vec<(String, PropertyNode)>,
}

/// The mathematical content of a [`StructValue`].
pub ghost enum StructModel {
    Guid(Seq<u8>),
    DateTime(u64),
    CustomStruct(Seq<(Seq<char>, NodeModel)>),
    Other(Seq<u8>),
}

/// The mathematical content of a [`PropertyNode`].
pub ghost enum NodeModel {
    IntProperty(i32),
    FloatProperty(FloatLeaf),
    BoolProperty(bool),
    ByteProperty(u8),
    StrProperty(Seq<char>),
    StructProperty(StructModel),
    ArrayProperty(Seq<NodeModel>),
    MapProperty(Seq<(NodeModel, NodeModel)>),
    SetProperty(Seq<NodeModel>),
    Opaque(Seq<u8>),
}

/// The mathematical content of a [`Document`].
pub ghost struct DocumentModel {
    pub header: Seq<u8>,
    pub properties: Seq<(Seq<char>, NodeModel)>,
}

impl NodeKind {
    /// The name of the kind, as it appears in the document format.
    pub open spec fn name_spec(self) -> Seq<char> {
        match self {
            NodeKind::IntProperty => "IntProperty"@,
            NodeKind::FloatProperty => "FloatProperty"@,
            NodeKind::BoolProperty => "BoolProperty"@,
            NodeKind::ByteProperty => "ByteProperty"@,
            NodeKind::StrProperty => "StrProperty"@,
            NodeKind::StructProperty => "StructProperty"@,
            NodeKind::ArrayProperty => "ArrayProperty"@,
            NodeKind::MapProperty => "MapProperty"@,
            NodeKind::SetProperty => "SetProperty"@,
            NodeKind::Opaque => "Opaque"@,
        }
    }

    /// The name of the kind, as it appears in the document format.
    pub fn name(&self) -> (name: &'static str)
        ensures
            name@ == self.name_spec(),
    {
        match self {
            NodeKind::IntProperty => "IntProperty",
            NodeKind::FloatProperty => "FloatProperty",
            NodeKind::BoolProperty => "BoolProperty",
            NodeKind::ByteProperty => "ByteProperty",
            NodeKind::StrProperty => "StrProperty",
            NodeKind::StructProperty => "StructProperty",
            NodeKind::ArrayProperty => "ArrayProperty",
            NodeKind::MapProperty => "MapProperty",
            NodeKind::SetProperty => "SetProperty",
            NodeKind::Opaque => "Opaque",
        }
    }
}

impl NodeModel {
    /// The tag of this node.
    pub open spec fn kind(self) -> NodeKind {
        match self {
            NodeModel::IntProperty(_) => NodeKind::IntProperty,
            NodeModel::FloatProperty(_) => NodeKind::FloatProperty,
            NodeModel::BoolProperty(_) => NodeKind::BoolProperty,
            NodeModel::ByteProperty(_) => NodeKind::ByteProperty,
            NodeModel::StrProperty(_) => NodeKind::StrProperty,
            NodeModel::StructProperty(_) => NodeKind::StructProperty,
            NodeModel::ArrayProperty(_) => NodeKind::ArrayProperty,
            NodeModel::MapProperty(_) => NodeKind::MapProperty,
            NodeModel::SetProperty(_) => NodeKind::SetProperty,
            NodeModel::Opaque(_) => NodeKind::Opaque,
        }
    }
}

/// The model of a list of named fields.
pub open spec fn fields_model(fields: Seq<(String, PropertyNode)>) -> Seq<(Seq<char>, NodeModel)>
    decreases fields,
{
    Seq::new(
        fields.len(),
        |i: int|
            if 0 <= i < fields.len() {
                (fields[i].0@, node_model(fields[i].1))
            } else {
                arbitrary()
            },
    )
}

/// The model of a list of nodes.
pub open spec fn nodes_model(nodes: Seq<PropertyNode>) -> Seq<NodeModel>
    decreases nodes,
{
    Seq::new(
        nodes.len(),
        |i: int|
            if 0 <= i < nodes.len() {
                node_model(nodes[i])
            } else {
                arbitrary()
            },
    )
}

/// The model of a list of map entries.
pub open spec fn entries_model(entries: Seq<(PropertyNode, PropertyNode)>) -> Seq<
    (NodeModel, NodeModel),
>
    decreases entries,
{
    Seq::new(
        entries.len(),
        |i: int|
            if 0 <= i < entries.len() {
                (node_model(entries[i].0), node_model(entries[i].1))
            } else {
                arbitrary()
            },
    )
}

/// The model of a struct payload.
pub open spec fn struct_model(value: StructValue) -> StructModel
    decreases value,
{
    match value {
        StructValue::Guid(guid) => StructModel::Guid(guid@),
        StructValue::DateTime(ticks) => StructModel::DateTime(ticks),
        StructValue::CustomStruct(fields) => StructModel::CustomStruct(fields_model(fields@)),
        StructValue::Other(bytes) => StructModel::Other(bytes@),
    }
}

/// The model of a node.
pub open spec fn node_model(node: PropertyNode) -> NodeModel
    decreases node,
{
    match node {
        PropertyNode::IntProperty(value) => NodeModel::IntProperty(value),
        PropertyNode::FloatProperty(value) => NodeModel::FloatProperty(value),
        PropertyNode::BoolProperty(value) => NodeModel::BoolProperty(value),
        PropertyNode::ByteProperty(value) => NodeModel::ByteProperty(value),
        PropertyNode::StrProperty(value) => NodeModel::StrProperty(value@),
        PropertyNode::StructProperty(value) => NodeModel::StructProperty(struct_model(value)),
        PropertyNode::ArrayProperty(items) => NodeModel::ArrayProperty(nodes_model(items@)),
        PropertyNode::MapProperty(entries) => NodeModel::MapProperty(entries_model(entries@)),
        PropertyNode::SetProperty(members) => NodeModel::SetProperty(nodes_model(members@)),
        PropertyNode::Opaque(bytes) => NodeModel::Opaque(bytes@),
    }
}

impl View for StructValue {
    type V = StructModel;

    open spec fn view(&self) -> StructModel {
        struct_model(*self)
    }
}

impl View for PropertyNode {
    type V = NodeModel;

    open spec fn view(&self) -> NodeModel {
        node_model(*self)
    }
}

impl View for Document {
    type V = DocumentModel;

    open spec fn view(&self) -> DocumentModel {
        DocumentModel { header: self.header@, properties: fields_model(self.properties@) }
    }
}

impl PropertyNode {
    /// The tag of this node.
    pub fn kind(&self) -> (kind: NodeKind)
        ensures
            kind == self@.kind(),
    {
        match self {
            PropertyNode::IntProperty(_) => NodeKind::IntProperty,
            PropertyNode::FloatProperty(_) => NodeKind::FloatProperty,
            PropertyNode::BoolProperty(_) => NodeKind::BoolProperty,
            PropertyNode::ByteProperty(_) => NodeKind::ByteProperty,
            PropertyNode::StrProperty(_) => NodeKind::StrProperty,
            PropertyNode::StructProperty(_) => NodeKind::StructProperty,
            PropertyNode::ArrayProperty(_) => NodeKind::ArrayProperty,
            PropertyNode::MapProperty(_) => NodeKind::MapProperty,
            PropertyNode::SetProperty(_) => NodeKind::SetProperty,
            PropertyNode::Opaque(_) => NodeKind::Opaque,
        }
    }
}

/// Replacing one field replaces the same position of the model.
pub proof fn lemma_fields_model_update(
    fields: Seq<(String, PropertyNode)>,
    i: int,
    field: (String, PropertyNode),
)
    requires
        0 <= i < fields.len(),
    ensures
        fields_model(fields.update(i, field)) == fields_model(fields).update(
            i,
            (field.0@, node_model(field.1)),
        ),
{
    assert(fields_model(fields.update(i, field)) =~= fields_model(fields).update(
        i,
        (field.0@, node_model(field.1)),
    ));
}

/// Replacing one map entry replaces the same position of the model.
pub proof fn lemma_entries_model_update(
    entries: Seq<(PropertyNode, PropertyNode)>,
    i: int,
    entry: (PropertyNode, PropertyNode),
)
    requires
        0 <= i < entries.len(),
    ensures
        entries_model(entries.update(i, entry)) == entries_model(entries).update(
            i,
            (node_model(entry.0), node_model(entry.1)),
        ),
{
    assert(entries_model(entries.update(i, entry)) =~= entries_model(entries).update(
        i,
        (node_model(entry.0), node_model(entry.1)),
    ));
}

/// Whether no two fields of a list have the same name.
pub open spec fn distinct_names(fields: Seq<(Seq<char>, NodeModel)>) -> bool {
    forall|a: int, b: int|
        0 <= a < b < fields.len() ==> (#[trigger] fields[a]).0 != (#[trigger] fields[b]).0
}

impl NodeModel {
    /// Whether, in this node and below it, the fields of every custom
    /// struct have distinct names.
    pub open spec fn well_formed(self) -> bool
        decreases self,
    {
        match self {
            NodeModel::StructProperty(StructModel::CustomStruct(fields)) => {
                &&& distinct_names(fields)
                &&& forall|i: int| 0 <= i < fields.len() ==> (#[trigger] fields[i]).1.well_formed()
            },
            NodeModel::ArrayProperty(items) => forall|i: int|
                0 <= i < items.len() ==> (#[trigger] items[i]).well_formed(),
            NodeModel::MapProperty(entries) => forall|i: int|
                0 <= i < entries.len() ==> (#[trigger] entries[i]).0.well_formed()
                    && entries[i].1.well_formed(),
            NodeModel::SetProperty(members) => forall|i: int|
                0 <= i < members.len() ==> (#[trigger] members[i]).well_formed(),
            _ => true,
        }
    }
}

impl DocumentModel {
    /// Whether the top-level fields have distinct names and every node is
    /// well formed. A document that a codec has decoded is well formed, and
    /// the writer keeps it so; the library reads and writes any document,
    /// well formed or not, by the first field of a name.
    pub open spec fn well_formed(self) -> bool {
        &&& distinct_names(self.properties)
        &&& forall|i: int|
            0 <= i < self.properties.len() ==> (#[trigger] self.properties[i]).1.well_formed()
    }
}

/// What it is for a node to be well formed, said of its children.
pub proof fn lemma_well_formed(node: NodeModel)
    ensures
        node.well_formed() == match node {
            NodeModel::StructProperty(StructModel::CustomStruct(fields)) => {
                &&& distinct_names(fields)
                &&& forall|i: int| 0 <= i < fields.len() ==> (#[trigger] fields[i]).1.well_formed()
            },
            NodeModel::ArrayProperty(items) => forall|i: int|
                0 <= i < items.len() ==> (#[trigger] items[i]).well_formed(),
            NodeModel::MapProperty(entries) => forall|i: int|
                0 <= i < entries.len() ==> (#[trigger] entries[i]).0.well_formed()
                    && entries[i].1.well_formed(),
            NodeModel::SetProperty(members) => forall|i: int|
                0 <= i < members.len() ==> (#[trigger] members[i]).well_formed(),
            _ => true,
        },
{
    match node {
        NodeModel::StructProperty(StructModel::CustomStruct(fields)) => {
            let payload = node->StructProperty_0;
            assert forall|i: int| 0 <= i < fields.len() implies decreases_to!(node => (
            #[trigger] fields[i]).1) by {
                assert(decreases_to!(node => node->StructProperty_0));
                assert(decreases_to!(payload => payload->CustomStruct_0));
                assert(decreases_to!(fields => fields[i]));
                assert(decreases_to!(fields[i] => fields[i].1));
            }
        },
        NodeModel::ArrayProperty(items) => {
            assert forall|i: int| 0 <= i < items.len() implies decreases_to!(
                node => #[trigger] items[i]
            ) by {
                assert(decreases_to!(node => node->ArrayProperty_0));
                assert(decreases_to!(items => items[i]));
            }
        },
        NodeModel::MapProperty(entries) => {
            assert forall|i: int| 0 <= i < entries.len() implies decreases_to!(node => (
            #[trigger] entries[i]).0) && decreases_to!(node => entries[i].1) by {
                assert(decreases_to!(node => node->MapProperty_0));
                assert(decreases_to!(entries => entries[i]));
                assert(decreases_to!(entries[i] => entries[i].0));
                assert(decreases_to!(entries[i] => entries[i].1));
            }
        },
        NodeModel::SetProperty(members) => {
            assert forall|i: int| 0 <= i < members.len() implies decreases_to!(
                node => #[trigger] members[i]
            ) by {
                assert(decreases_to!(node => node->SetProperty_0));
                assert(decreases_to!(members => members[i]));
            }
        },
        _ => {},
    }
}

fn names_distinct(fields: &Vec<(String, PropertyNode)>) -> (ok: bool)
    ensures
        ok == distinct_names(fields_model(fields@)),
{
    let ghost model = fields_model(fields@);
    let mut b: usize = 0;
    while b < fields.len()
        invariant
            b <= fields.len(),
            model == fields_model(fields@),
            forall|x: int, y: int|
                0 <= x < y < b ==> (#[trigger] model[x]).0 != (#[trigger] model[y]).0,
        decreases fields.len() - b,
    {
        let mut a: usize = 0;
        while a < b
            invariant
                a <= b < fields.len(),
                model == fields_model(fields@),
                forall|x: int| 0 <= x < a ==> (#[trigger] model[x]).0 != model[b as int].0,
            decreases b - a,
        {
            if fields[a].0 == fields[b].0 {
                assert(model[a as int].0 == model[b as int].0);
                return false;
            }
            a += 1;
        }
        b += 1;
    }
    true
}

fn fields_well_formed(fields: &Vec<(String, PropertyNode)>) -> (ok: bool)
    ensures
        ok == (forall|i: int|
            0 <= i < fields@.len() ==> (#[trigger] fields_model(fields@)[i]).1.well_formed()),
    decreases fields,
{
    let ghost model = fields_model(fields@);
    let mut i: usize = 0;
    while i < fields.len()
        invariant
            i <= fields.len(),
            model == fields_model(fields@),
            forall|j: int| 0 <= j < i ==> (#[trigger] model[j]).1.well_formed(),
        decreases fields.len() - i,
    {
        if !fields[i].1.is_well_formed() {
            assert(!model[i as int].1.well_formed());
            return false;
        }
        i += 1;
    }
    true
}

fn nodes_well_formed(nodes: &Vec<PropertyNode>) -> (ok: bool)
    ensures
        ok == (forall|i: int|
            0 <= i < nodes@.len() ==> (#[trigger] nodes_model(nodes@)[i]).well_formed()),
    decreases nodes,
{
    let ghost model = nodes_model(nodes@);
    let mut i: usize = 0;
    while i < nodes.len()
        invariant
            i <= nodes.len(),
            model == nodes_model(nodes@),
            forall|j: int| 0 <= j < i ==> (#[trigger] model[j]).well_formed(),
        decreases nodes.len() - i,
    {
        if !nodes[i].is_well_formed() {
            assert(!model[i as int].well_formed());
            return false;
        }
        i += 1;
    }
    true
}

fn entries_well_formed(entries: &Vec<(PropertyNode, PropertyNode)>) -> (ok: bool)
    ensures
        ok == (forall|i: int|
            0 <= i < entries@.len() ==> (#[trigger] entries_model(entries@)[i]).0.well_formed()
                && entries_model(entries@)[i].1.well_formed()),
    decreases entries,
{
    let ghost model = entries_model(entries@);
    let mut i: usize = 0;
    while i < entries.len()
        invariant
            i <= entries.len(),
            model == entries_model(entries@),
            forall|j: int|
                0 <= j < i ==> (#[trigger] model[j]).0.well_formed() && model[j].1.well_formed(),
        decreases entries.len() - i,
    {
        if !entries[i].0.is_well_formed() || !entries[i].1.is_well_formed() {
            assert(!(model[i as int].0.well_formed() && model[i as int].1.well_formed()));
            return false;
        }
        i += 1;
    }
    true
}

impl PropertyNode {
    /// Whether, in this node and below it, the fields of every custom
    /// struct have distinct names.
    pub fn is_well_formed(&self) -> (ok: bool)
        ensures
            ok == self@.well_formed(),
        decreases self,
    {
        match self {
            PropertyNode::StructProperty(value) => match value {
                StructValue::CustomStruct(fields) => {
                    proof {
                        lemma_well_formed(
                            NodeModel::StructProperty(
                                StructModel::CustomStruct(fields_model(fields@)),
                            ),
                        );
                        assert(struct_model(*value) == StructModel::CustomStruct(
                            fields_model(fields@),
                        ));
                    }
                    let distinct = names_distinct(fields);
                    let below = fields_well_formed(fields);
                    distinct && below
                },
                _ => {
                    proof {
                        lemma_well_formed(self@);
                        assert(!(struct_model(*value) is CustomStruct));
                    }
                    true
                },
            },
            PropertyNode::ArrayProperty(items) => {
                proof {
                    lemma_well_formed(NodeModel::ArrayProperty(nodes_model(items@)));
                }
                nodes_well_formed(items)
            },
            PropertyNode::MapProperty(entries) => {
                proof {
                    lemma_well_formed(NodeModel::MapProperty(entries_model(entries@)));
                }
                entries_well_formed(entries)
            },
            PropertyNode::SetProperty(members) => {
                proof {
                    lemma_well_formed(NodeModel::SetProperty(nodes_model(members@)));
                }
                nodes_well_formed(members)
            },
            _ => {
                proof {
                    lemma_well_formed(self@);
                }
                true
            },
        }
    }
}

impl Document {
    /// Whether the top-level fields have distinct names and every node is
    /// well formed.
    pub fn is_well_formed(&self) -> (ok: bool)
        ensures
            ok == self@.well_formed(),
    {
        names_distinct(&self.properties) && fields_well_formed(&self.properties)
    }
}

} // verus!
