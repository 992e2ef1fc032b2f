//! Schemas: the closed set of their variants, and how a node of the document
//! is read as one.

use crate::document::{child, child_text, Member, Node};
use crate::text::text_eq;
use vstd::prelude::*;

verus! {

/// A schema written in place, or a pointer to one.
#[derive(Debug, PartialEq)]
pub enum RefOrObject<T> {
    Object(T),
    Ref { ref_path: String },
}

#[derive(Debug, PartialEq)]
pub enum Schema {
    Basic(BasicSchema),
    Union(UnionSchema),
}

/// A property of an object schema. The properties of an object stand in the
/// order in which the document declares them.
#[derive(Debug, PartialEq)]
pub struct Property {
    pub name: String,
    pub schema: RefOrObject<Schema>,
}

#[derive(Debug, PartialEq)]
pub enum BasicSchema {
    String {  },
    Number {  },
    Integer {  },
    Boolean {  },
    Array { items: Box<RefOrObject<Schema>> },
    Object { properties: Vec<Property> },
}

#[derive(Debug, PartialEq)]
pub enum UnionSchema {
    OneOf { one_of: Vec<RefOrObject<Schema>> },
    AnyOf { any_of: Vec<RefOrObject<Schema>> },
    AllOf { all_of: Vec<RefOrObject<Schema>> },
    Not { not: Box<RefOrObject<Schema>> },
}

/// What a schema says, whichever way it is held: its variant, and under it
/// the names, pointers and schemas that it is made of.
pub enum Shape {
    Reference(Seq<char>),
    Text,
    Number,
    Integer,
    Boolean,
    Array(Box<Shape>),
    Record(Seq<Seq<char>>, Seq<Shape>),
    OneOf(Seq<Shape>),
    AnyOf(Seq<Shape>),
    AllOf(Seq<Shape>),
    Not(Box<Shape>),
}

pub open spec fn shape_of(schema: RefOrObject<Schema>) -> Shape
    decreases schema,
{
    match schema {
        RefOrObject::Ref { ref_path } => Shape::Reference(ref_path@),
        RefOrObject::Object(Schema::Basic(BasicSchema::String {  })) => Shape::Text,
        RefOrObject::Object(Schema::Basic(BasicSchema::Number {  })) => Shape::Number,
        RefOrObject::Object(Schema::Basic(BasicSchema::Integer {  })) => Shape::Integer,
        RefOrObject::Object(Schema::Basic(BasicSchema::Boolean {  })) => Shape::Boolean,
        RefOrObject::Object(Schema::Basic(BasicSchema::Array { items })) => Shape::Array(
            Box::new(shape_of(*items)),
        ),
        RefOrObject::Object(Schema::Basic(BasicSchema::Object { properties })) => Shape::Record(
            property_names(properties@),
            property_shapes(properties@),
        ),
        RefOrObject::Object(Schema::Union(UnionSchema::OneOf { one_of })) => Shape::OneOf(
            shapes_of(one_of@),
        ),
        RefOrObject::Object(Schema::Union(UnionSchema::AnyOf { any_of })) => Shape::AnyOf(
            shapes_of(any_of@),
        ),
        RefOrObject::Object(Schema::Union(UnionSchema::AllOf { all_of })) => Shape::AllOf(
            shapes_of(all_of@),
        ),
        RefOrObject::Object(Schema::Union(UnionSchema::Not { not })) => Shape::Not(
            Box::new(shape_of(*not)),
        ),
    }
}

/// What each of `schemas` says, in order.
pub open spec fn shapes_of(schemas: Seq<RefOrObject<Schema>>) -> Seq<Shape>
    decreases schemas,
{
    if schemas.len() == 0 {
        Seq::empty()
    } else {
        shapes_of(schemas.drop_last()).push(shape_of(schemas.last()))
    }
}

/// The names of `properties`, in order.
pub open spec fn property_names(properties: Seq<Property>) -> Seq<Seq<char>> {
    Seq::new(properties.len(), |i: int| properties[i].name@)
}

/// What the schema of each of `properties` says, in order.
pub open spec fn property_shapes(properties: Seq<Property>) -> Seq<Shape>
    decreases properties,
{
    if properties.len() == 0 {
        Seq::empty()
    } else {
        property_shapes(properties.drop_last()).push(shape_of(properties.last().schema))
    }
}

impl View for RefOrObject<Schema> {
    type V = Shape;

    open spec fn view(&self) -> Shape {
        shape_of(*self)
    }
}

/// The schemas that the nodes of `nodes` are read as, if each of them is one.
pub open spec fn read_shapes(nodes: Seq<Node>) -> Option<Seq<Shape>>
    decreases nodes, 1int,
{
    if nodes.len() == 0 {
        Some(Seq::empty())
    } else {
        match read_shapes(nodes.drop_last()) {
            Some(shapes) => match read_shape(nodes.last()) {
                Some(shape) => Some(shapes.push(shape)),
                None => None,
            },
            None => None,
        }
    }
}

/// The names of `members`, in order.
pub open spec fn member_names(members: Seq<Member>) -> Seq<Seq<char>> {
    Seq::new(members.len(), |i: int| members[i].name@)
}

/// The schemas that the values of `members` are read as, if each of them is
/// one.
pub open spec fn read_member_shapes(members: Seq<Member>) -> Option<Seq<Shape>>
    decreases members, 1int,
{
    if members.len() == 0 {
        Some(Seq::empty())
    } else {
        match read_member_shapes(members.drop_last()) {
            Some(shapes) => match read_shape(members.last().value) {
                Some(shape) => Some(shapes.push(shape)),
                None => None,
            },
            None => None,
        }
    }
}

/// The schemas of the array that stands under `key` in `node`, if an array
/// of schemas stands there.
pub open spec fn read_alternatives(node: Node, key: Seq<char>) -> Option<Seq<Shape>>
    decreases node, 2int,
{
    match child(node, key) {
        Some(Node::Array(items)) => read_shapes(items@),
        _ => None,
    }
}

/// How `node` is read as a schema with a `type`: the type is one of `string`,
/// `number`, `integer`, `boolean`, `array` with the schema of its `items`, and
/// `object` with the schemas of its `properties`.
pub open spec fn read_basic(node: Node) -> Option<Shape>
    decreases node, 2int,
{
    match child_text(node, "type"@) {
        Some(kind) => {
            if kind == "string"@ {
                Some(Shape::Text)
            } else if kind == "number"@ {
                Some(Shape::Number)
            } else if kind == "integer"@ {
                Some(Shape::Integer)
            } else if kind == "boolean"@ {
                Some(Shape::Boolean)
            } else if kind == "array"@ {
                match child(node, "items"@) {
                    Some(items) => match read_shape(items) {
                        Some(shape) => Some(Shape::Array(Box::new(shape))),
                        None => None,
                    },
                    None => None,
                }
            } else if kind == "object"@ {
                match child(node, "properties"@) {
                    Some(Node::Object(members)) => match read_member_shapes(members@) {
                        Some(shapes) => Some(Shape::Record(member_names(members@), shapes)),
                        None => None,
                    },
                    _ => None,
                }
            } else {
                None
            }
        },
        None => None,
    }
}

/// How `node` is read as a union: by the first of `oneOf`, `anyOf` and `allOf`
/// that holds an array of schemas.
pub open spec fn read_union(node: Node) -> Option<Shape>
    decreases node, 3int,
{
    match read_alternatives(node, "oneOf"@) {
        Some(shapes) => Some(Shape::OneOf(shapes)),
        None => match read_alternatives(node, "anyOf"@) {
            Some(shapes) => Some(Shape::AnyOf(shapes)),
            None => match read_alternatives(node, "allOf"@) {
                Some(shapes) => Some(Shape::AllOf(shapes)),
                None => None,
            },
        },
    }
}

/// How `node` is read as a schema, if it is one. A node that holds something
/// under `not` negates the schema that stands there, whatever else it holds:
/// the negation is never left out. Any other node with a `type` that fits is
/// a schema of that type; failing that, a union; failing that, a pointer,
/// where a text stands under `$ref`.
pub open spec fn read_shape(node: Node) -> Option<Shape>
    decreases node, 4int,
{
    match child(node, "not"@) {
        Some(inner) => match read_shape(inner) {
            Some(shape) => Some(Shape::Not(Box::new(shape))),
            None => None,
        },
        None => match read_basic(node) {
            Some(shape) => Some(shape),
            None => match read_union(node) {
                Some(shape) => Some(shape),
                None => match child_text(node, "$ref"@) {
                    Some(pointer) => Some(Shape::Reference(pointer)),
                    None => None,
                },
            },
        },
    }
}

/// Where a beginning of `nodes` holds what is no schema, so does the whole.
proof fn lemma_read_shapes_none(nodes: Seq<Node>, upto: int)
    requires
        0 <= upto <= nodes.len(),
        read_shapes(nodes.take(upto)) is None,
    ensures
        read_shapes(nodes) is None,
    decreases nodes.len() - upto,
{
    if upto == nodes.len() {
        assert(nodes.take(upto) == nodes);
    } else {
        assert(nodes.take(upto + 1).drop_last() == nodes.take(upto));
        lemma_read_shapes_none(nodes, upto + 1);
    }
}

proof fn lemma_read_member_shapes_none(members: Seq<Member>, upto: int)
    requires
        0 <= upto <= members.len(),
        read_member_shapes(members.take(upto)) is None,
    ensures
        read_member_shapes(members) is None,
    decreases members.len() - upto,
{
    if upto == members.len() {
        assert(members.take(upto) == members);
    } else {
        assert(members.take(upto + 1).drop_last() == members.take(upto));
        lemma_read_member_shapes_none(members, upto + 1);
    }
}

fn read_list(nodes: &Vec<Node>) -> (result: Option<Vec<RefOrObject<Schema>>>)
    ensures
        match result {
            Some(list) => read_shapes(nodes@) == Some(shapes_of(list@)),
            None => read_shapes(nodes@) is None,
        },
    decreases nodes, 1int,
{
    let mut list: Vec<RefOrObject<Schema>> = Vec::new();
    let mut i: usize = 0;
    while i < nodes.len()
        invariant
            i <= nodes.len(),
            read_shapes(nodes@.take(i as int)) == Some(shapes_of(list@)),
        decreases nodes.len() - i,
    {
        proof {
            assert(nodes@.take(i + 1).drop_last() == nodes@.take(i as int));
            assert(nodes@.take(i + 1).last() == nodes@[i as int]);
        }
        match read_schema(&nodes[i]) {
            Some(schema) => {
                proof {
                    assert(list@.push(schema).drop_last() == list@);
                }
                list.push(schema);
            },
            None => {
                proof {
                    lemma_read_shapes_none(nodes@, i + 1);
                }
                return None;
            },
        }
        i += 1;
    }
    assert(nodes@.take(nodes.len() as int) == nodes@);
    Some(list)
}

fn read_properties(members: &Vec<Member>) -> (result: Option<Vec<Property>>)
    ensures
        match result {
            Some(properties) => read_member_shapes(members@) == Some(
                property_shapes(properties@),
            ) && property_names(properties@) == member_names(members@),
            None => read_member_shapes(members@) is None,
        },
    decreases members, 1int,
{
    let mut properties: Vec<Property> = Vec::new();
    let mut i: usize = 0;
    while i < members.len()
        invariant
            i <= members.len(),
            properties.len() == i,
            read_member_shapes(members@.take(i as int)) == Some(property_shapes(properties@)),
            forall|k: int| 0 <= k < i ==> (#[trigger] properties@[k]).name@ == members@[k].name@,
        decreases members.len() - i,
    {
        proof {
            assert(members@.take(i + 1).drop_last() == members@.take(i as int));
            assert(members@.take(i + 1).last() == members@[i as int]);
        }
        match read_schema(&members[i].value) {
            Some(schema) => {
                let property = Property { name: members[i].name.clone(), schema };
                proof {
                    assert(properties@.push(property).drop_last() == properties@);
                }
                properties.push(property);
            },
            None => {
                proof {
                    lemma_read_member_shapes_none(members@, i + 1);
                }
                return None;
            },
        }
        i += 1;
    }
    assert(members@.take(members.len() as int) == members@);
    assert(property_names(properties@) == member_names(members@));
    Some(properties)
}

fn read_alternatives_at(node: &Node, key: &str) -> (result: Option<Vec<RefOrObject<Schema>>>)
    ensures
        match result {
            Some(list) => read_alternatives(*node, key@) == Some(shapes_of(list@)),
            None => read_alternatives(*node, key@) is None,
        },
    decreases node, 2int,
{
    match node.get(key) {
        Some(Node::Array(items)) => read_list(items),
        _ => None,
    }
}

fn read_basic_schema(node: &Node) -> (result: Option<RefOrObject<Schema>>)
    ensures
        match result {
            Some(schema) => read_basic(*node) == Some(schema@),
            None => read_basic(*node) is None,
        },
    decreases node, 2int,
{
    let kind = match node.get_text("type") {
        Some(kind) => kind,
        None => {
            return None;
        },
    };
    if text_eq(kind, "string") {
        Some(RefOrObject::Object(Schema::Basic(BasicSchema::String {  })))
    } else if text_eq(kind, "number") {
        Some(RefOrObject::Object(Schema::Basic(BasicSchema::Number {  })))
    } else if text_eq(kind, "integer") {
        Some(RefOrObject::Object(Schema::Basic(BasicSchema::Integer {  })))
    } else if text_eq(kind, "boolean") {
        Some(RefOrObject::Object(Schema::Basic(BasicSchema::Boolean {  })))
    } else if text_eq(kind, "array") {
        match node.get("items") {
            Some(items) => match read_schema(items) {
                Some(schema) => Some(
                    RefOrObject::Object(
                        Schema::Basic(BasicSchema::Array { items: Box::new(schema) }),
                    ),
                ),
                None => None,
            },
            None => None,
        }
    } else if text_eq(kind, "object") {
        match node.get("properties") {
            Some(Node::Object(members)) => match read_properties(members) {
                Some(properties) => Some(
                    RefOrObject::Object(Schema::Basic(BasicSchema::Object { properties })),
                ),
                None => None,
            },
            _ => None,
        }
    } else {
        None
    }
}

fn read_union_schema(node: &Node) -> (result: Option<RefOrObject<Schema>>)
    ensures
        match result {
            Some(schema) => read_union(*node) == Some(schema@),
            None => read_union(*node) is None,
        },
    decreases node, 3int,
{
    if let Some(one_of) = read_alternatives_at(node, "oneOf") {
        return Some(RefOrObject::Object(Schema::Union(UnionSchema::OneOf { one_of })));
    }
    if let Some(any_of) = read_alternatives_at(node, "anyOf") {
        return Some(RefOrObject::Object(Schema::Union(UnionSchema::AnyOf { any_of })));
    }
    if let Some(all_of) = read_alternatives_at(node, "allOf") {
        return Some(RefOrObject::Object(Schema::Union(UnionSchema::AllOf { all_of })));
    }
    None
}

/// Reads `node` as a schema. A node that holds something under `not` is read
/// as the negation of the schema that stands there. Any other node with a
/// `type` that fits is read as a schema of that type; failing that, as a
/// union; failing that, as a pointer. A node that is none of these is no
/// schema.
pub fn read_schema(node: &Node) -> (result: Option<RefOrObject<Schema>>)
    ensures
        match result {
            Some(schema) => read_shape(*node) == Some(schema@),
            None => read_shape(*node) is None,
        },
    decreases node, 4int,
{
    if let Some(inner) = node.get("not") {
        return match read_schema(inner) {
            Some(schema) => Some(
                RefOrObject::Object(Schema::Union(UnionSchema::Not { not: Box::new(schema) })),
            ),
            None => None,
        };
    }
    if let Some(schema) = read_basic_schema(node) {
        return Some(schema);
    }
    if let Some(schema) = read_union_schema(node) {
        return Some(schema);
    }
    match node.get_text("$ref") {
        Some(pointer) => Some(RefOrObject::Ref { ref_path: String::from_str(pointer) }),
        None => None,
    }
}

} // verus!
