//! The schema model builder: from schemas to a set of type declarations in
//! which no pointer is declared twice.
//!
//! A primitive schema gives a property: an identifier and the type that a
//! field of it has. An array gives a property whose type is a sequence of what
//! its items give. An object, and a union of schemas, gives a model: a type of
//! its own, declared once and registered under the pointer of the schema.
//! What a pointer has given is remembered, and the pointer is answered from
//! the registry from then on. While what a pointer names is being declared the
//! pointer is pending, and a pointer that is met while it is pending is not
//! followed again: the model that is being built is referred to through a
//! `Box`.

pub mod laws;
pub mod reach;
pub mod registry;
pub mod rules;

pub use registry::{GenerationResult, SchemaModel, SchemaProperty, TypeRegistry};

use crate::builder::reach::{
    lemma_followed, lemma_pointers_of_one, lemma_remaining_opened, lemma_remaining_part, remaining,
};
use crate::builder::laws::{grown_from, lemma_generated_sound, sound};
use crate::builder::registry::agrees;
use crate::builder::rules::{
    chosen_identifier, compose, declare, generated_at, is_choice, is_composite, lookup,
    member_identifier, member_label, member_pointer, member_shapes, member_stem, member_stems,
    member_text, members_from, model_text, opened,
    property, schema_name, type_of, with_pending, PendingView, RegistryView,
};
use crate::document::Node;
use crate::error::{ErrorKind, MacroError};
use crate::model::{
    property_shapes, read_schema, shape_of, shapes_of, BasicSchema, Property, RefOrObject, Schema,
    Shape, UnionSchema,
};
use crate::reference::expand_reference;
use crate::text::{chain, chain3, decimal_text, split_text, views};
use crate::utils::casing::{field_identifier, field_label, type_identifier, type_label};
use crate::utils::unique::{names_given, unused_identifier};
use vstd::prelude::*;

verus! {

/// A list of schemas says, place by place, what its schemas say.
pub(crate) proof fn lemma_shapes_of(schemas: Seq<RefOrObject<Schema>>)
    ensures
        shapes_of(schemas).len() == schemas.len(),
        forall|i: int| 0 <= i < schemas.len() ==> shapes_of(schemas)[i] == shape_of(#[trigger] schemas[i]),
    decreases schemas.len(),
{
    if schemas.len() > 0 {
        lemma_shapes_of(schemas.drop_last());
        assert forall|i: int| 0 <= i < schemas.len() implies shapes_of(schemas)[i] == shape_of(
            #[trigger] schemas[i],
        ) by {
            if i < schemas.len() - 1 {
                assert(schemas.drop_last()[i] == schemas[i]);
            }
        }
    }
}

/// The properties of an object say, place by place, what their schemas say.
pub(crate) proof fn lemma_property_shapes(properties: Seq<Property>)
    ensures
        property_shapes(properties).len() == properties.len(),
        forall|i: int|
            0 <= i < properties.len() ==> property_shapes(properties)[i] == shape_of(
                (#[trigger] properties[i]).schema,
            ),
    decreases properties.len(),
{
    if properties.len() > 0 {
        lemma_property_shapes(properties.drop_last());
        assert forall|i: int| 0 <= i < properties.len() implies property_shapes(properties)[i]
            == shape_of((#[trigger] properties[i]).schema) by {
            if i < properties.len() - 1 {
                assert(properties.drop_last()[i] == properties[i]);
            }
        }
    }
}

fn member_count(target: &RefOrObject<Schema>) -> (n: usize)
    ensures
        n == member_shapes(target@).len(),
{
    match target {
        RefOrObject::Object(Schema::Basic(BasicSchema::Object { properties })) => {
            proof {
                lemma_property_shapes(properties@);
            }
            properties.len()
        },
        RefOrObject::Object(Schema::Union(UnionSchema::OneOf { one_of })) => {
            proof {
                lemma_shapes_of(one_of@);
            }
            one_of.len()
        },
        RefOrObject::Object(Schema::Union(UnionSchema::AnyOf { any_of })) => {
            proof {
                lemma_shapes_of(any_of@);
            }
            any_of.len()
        },
        RefOrObject::Object(Schema::Union(UnionSchema::AllOf { all_of })) => {
            proof {
                lemma_shapes_of(all_of@);
            }
            all_of.len()
        },
        _ => 0,
    }
}

fn member_at(target: &RefOrObject<Schema>, i: usize) -> (member: &RefOrObject<Schema>)
    requires
        i < member_shapes(target@).len(),
    ensures
        member@ == member_shapes(target@)[i as int],
        decreases_to!(*target => *member),
{
    match target {
        RefOrObject::Object(Schema::Basic(BasicSchema::Object { properties })) => {
            proof {
                lemma_property_shapes(properties@);
            }
            &properties[i].schema
        },
        RefOrObject::Object(Schema::Union(UnionSchema::OneOf { one_of })) => {
            proof {
                lemma_shapes_of(one_of@);
            }
            &one_of[i]
        },
        RefOrObject::Object(Schema::Union(UnionSchema::AnyOf { any_of })) => {
            proof {
                lemma_shapes_of(any_of@);
            }
            &any_of[i]
        },
        RefOrObject::Object(Schema::Union(UnionSchema::AllOf { all_of })) => {
            proof {
                lemma_shapes_of(all_of@);
            }
            &all_of[i]
        },
        // no other schema has members
        _ => target,
    }
}

fn member_label_text(target: &RefOrObject<Schema>, name: &str, i: usize) -> (label: String)
    requires
        i < member_shapes(target@).len(),
    ensures
        label@ == member_label(target@, name@, i as int),
{
    match target {
        RefOrObject::Object(Schema::Basic(BasicSchema::Object { properties })) => {
            proof {
                lemma_property_shapes(properties@);
            }
            properties[i].name.clone()
        },
        _ => {
            proof {
                reveal_strlit("_");
                assert("_"@ == seq!['_']);
            }
            let place = decimal_text(i as u128);
            chain3(name, "_", place.as_str())
        },
    }
}

fn member_pointer_text(target: &RefOrObject<Schema>, at: &str, i: usize) -> (pointer: String)
    requires
        i < member_shapes(target@).len(),
    ensures
        pointer@ == member_pointer(target@, at@, i as int),
{
    proof {
        reveal_strlit("/");
        assert("/"@ == seq!['/']);
    }
    let mut pointer = String::from_str(at);
    pointer.append("/");
    match target {
        RefOrObject::Object(Schema::Basic(BasicSchema::Object { properties })) => {
            proof {
                lemma_property_shapes(properties@);
            }
            pointer.append("properties");
            pointer.append("/");
            pointer.append(properties[i].name.as_str());
        },
        RefOrObject::Object(Schema::Union(UnionSchema::OneOf { one_of: _ })) => {
            pointer.append("oneOf");
            pointer.append("/");
            pointer.append(decimal_text(i as u128).as_str());
        },
        RefOrObject::Object(Schema::Union(UnionSchema::AnyOf { any_of: _ })) => {
            pointer.append("anyOf");
            pointer.append("/");
            pointer.append(decimal_text(i as u128).as_str());
        },
        _ => {
            pointer.append("allOf");
            pointer.append("/");
            pointer.append(decimal_text(i as u128).as_str());
        },
    }
    pointer
}

fn is_choice_schema(target: &RefOrObject<Schema>) -> (choice: bool)
    ensures
        choice == is_choice(target@),
{
    match target {
        RefOrObject::Object(Schema::Union(UnionSchema::OneOf { one_of: _ })) => true,
        RefOrObject::Object(Schema::Union(UnionSchema::AnyOf { any_of: _ })) => true,
        _ => false,
    }
}

/// The name that a member with the label `label` would have by itself.
fn member_stem_of(target: &RefOrObject<Schema>, label: &str) -> (stem: String)
    ensures
        stem@ == if is_choice(target@) {
            type_label(label@)
        } else {
            field_label(label@)
        },
{
    if is_choice_schema(target) {
        type_identifier(label)
    } else {
        field_identifier(label)
    }
}

fn member_text_of(target: &RefOrObject<Schema>, identifier: &str, type_text: &str) -> (text:
    String)
    ensures
        text@ == member_text(target@, identifier@, type_text@),
{
    if is_choice_schema(target) {
        let mut text = String::from_str(identifier);
        text.append("(");
        text.append(type_text);
        text.append("), ");
        text
    } else {
        let mut text = String::from_str("pub ");
        text.append(identifier);
        text.append(": ");
        text.append(type_text);
        text.append(", ");
        text
    }
}

fn model_text_of(target: &RefOrObject<Schema>, identifier: &str, members: &str) -> (text: String)
    ensures
        text@ == model_text(target@, identifier@, members@),
{
    let mut text = if is_choice_schema(target) {
        String::from_str("pub enum ")
    } else {
        String::from_str("pub struct ")
    };
    text.append(identifier);
    text.append(" { ");
    text.append(members);
    text.append("}");
    text
}

fn property_of(name: &str, type_text: String) -> (result: GenerationResult)
    ensures
        result@ == property(name@, type_text@),
{
    GenerationResult::Property(
        SchemaProperty { identifier: field_identifier(name), definition: type_text },
    )
}

/// The name that the schema under `pointer` is given.
fn schema_name_of(node: &Node, pointer: &str) -> (name: String)
    ensures
        name@ == schema_name(*node, pointer@),
{
    let hint = match node.get("xml") {
        Some(xml) => xml.get_text("name"),
        None => None,
    };
    match hint {
        Some(name) => String::from_str(name),
        None => {
            let mut pieces = split_text(pointer, '/');
            let ghost all = pieces@;
            match pieces.pop() {
                Some(last) => {
                    assert(views(all).last() == last@);
                    last
                },
                None => String::new(),
            }
        },
    }
}

/// The pointers that are pending when a schema is declared are pending
/// afterwards.
pub(crate) proof fn lemma_declare_pending(
    root: Node,
    state: RegistryView,
    target: Shape,
    at: Seq<char>,
    prefix: Seq<char>,
    base: Seq<char>,
    name: Seq<char>,
)
    ensures
        declare(root, state, target, at, prefix, base, name).state.pending == state.pending,
{
    if is_composite(target) && lookup(state, at) is None {
        let identifier = chosen_identifier(state, at, base, name);
        assert(compose(root, state, target, at, prefix, identifier, name).state.pending
            == state.pending);
    }
}

pub(crate) proof fn lemma_members_pending(
    root: Node,
    state: RegistryView,
    target: Shape,
    at: Seq<char>,
    prefix: Seq<char>,
    identifier: Seq<char>,
    name: Seq<char>,
    i: int,
    so_far: Seq<char>,
)
    ensures
        members_from(root, state, target, at, prefix, identifier, name, i, so_far).state.pending
            == state.pending,
    decreases member_shapes(target).len() - i,
{
    let shapes = member_shapes(target);
    if 0 <= i < shapes.len() {
        let label = member_label(target, name, i);
        let member = declare(
            root,
            state,
            shapes[i],
            member_pointer(target, at, i),
            prefix,
            identifier,
            label,
        );
        if member.result is Ok {
            lemma_members_pending(
                root,
                with_pending(member.state, state.pending),
                target,
                at,
                prefix,
                identifier,
                name,
                i + 1,
                so_far + member_text(
                    target,
                    member_identifier(target, name, i),
                    type_of(member.result->Ok_0),
                ),
            );
        }
    }
}

/// Declares what the schema `target` gives, and registers the models that
/// are declared on the way.
///
/// `at` is the pointer of the schema, `name` the name under which it is met,
/// and `base` the name of what encloses it. What a pointer names is enclosed
/// by nothing but `prefix`, whoever points to it.
pub fn declare_schema(
    registry: &mut TypeRegistry,
    root: &Node,
    target: &RefOrObject<Schema>,
    at: &str,
    prefix: &str,
    base: &str,
    name: &str,
) -> (result: Result<GenerationResult, MacroError>)
    ensures
        agrees(
            result,
            final(registry)@,
            declare(*root, old(registry)@, target@, at@, prefix@, base@, name@),
        ),
    decreases remaining(*root, old(registry)@.pending, target@), target, 2int, 0int,
{
    match target {
        RefOrObject::Ref { ref_path } => {
            let pointer = ref_path.as_str();
            if let Some(generated) = registry.answer_to(pointer) {
                return Ok(generated.duplicate());
            }
            if let Some(model) = registry.get(pointer) {
                return Ok(GenerationResult::Model(model.duplicate()));
            }
            if let Some(pending) = registry.pending_identifier(pointer) {
                return match pending {
                    Some(identifier) => {
                        let type_text = chain3("Box<", identifier.as_str(), ">");
                        Ok(property_of(name, type_text))
                    },
                    None => Err(MacroError::new(ErrorKind::InvalidReference, pointer)),
                };
            }
            let node = match expand_reference(root, pointer) {
                Ok(node) => node,
                Err(error) => {
                    return Err(error);
                },
            };
            let schema = match read_schema(node) {
                Some(schema) => schema,
                None => {
                    return Err(
                        MacroError::new(
                            ErrorKind::InvalidInput,
                            "data did not match any variant of untagged enum RefOrObject",
                        ),
                    );
                },
            };
            let inner_name = schema_name_of(node, pointer);
            registry.open(pointer, None);
            proof {
                lemma_followed(*root, old(registry)@, pointer@);
                lemma_declare_pending(
                    *root,
                    registry@,
                    schema@,
                    pointer@,
                    prefix@,
                    prefix@,
                    inner_name@,
                );
            }
            let result = declare_schema(
                registry,
                root,
                &schema,
                pointer,
                prefix,
                prefix,
                inner_name.as_str(),
            );
            registry.close();
            proof {
                assert(old(registry)@.pending.push(
                    PendingView { pointer: pointer@, identifier: None },
                ).drop_last() == old(registry)@.pending);
            }
            match result {
                Ok(generated) => registry.remember(pointer, generated),
                Err(error) => Err(error),
            }
        },
        RefOrObject::Object(Schema::Basic(BasicSchema::String {  })) => Ok(
            property_of(name, String::from_str("String")),
        ),
        RefOrObject::Object(Schema::Basic(BasicSchema::Number {  })) => Ok(
            property_of(name, String::from_str("i32")),
        ),
        RefOrObject::Object(Schema::Basic(BasicSchema::Integer {  })) => Ok(
            property_of(name, String::from_str("i32")),
        ),
        RefOrObject::Object(Schema::Basic(BasicSchema::Boolean {  })) => Ok(
            property_of(name, String::from_str("bool")),
        ),
        RefOrObject::Object(Schema::Basic(BasicSchema::Array { items })) => {
            let pointer = chain(at, "/items");
            proof {
                lemma_remaining_part(*root, registry@.pending, target@, items@);
                lemma_declare_pending(
                    *root,
                    registry@,
                    items@,
                    pointer@,
                    prefix@,
                    base@,
                    name@,
                );
                let inner = declare(*root, registry@, items@, pointer@, prefix@, base@, name@);
                assert(with_pending(inner.state, registry@.pending) == inner.state);
            }
            let element = declare_schema(
                registry,
                root,
                items,
                pointer.as_str(),
                prefix,
                base,
                name,
            )?;
            Ok(property_of(name, chain3("Vec<", element.type_text(), ">")))
        },
        RefOrObject::Object(Schema::Union(UnionSchema::Not { not: _ })) => Err(
            MacroError::new(ErrorKind::UnimplementedFeature, "'not' schema"),
        ),
        _ => {
            if let Some(model) = registry.get(at) {
                return Ok(GenerationResult::Model(model.duplicate()));
            }
            let identifier = registry.choose_identifier(at, base, name);
            compose_model(registry, root, target, at, prefix, identifier.as_str(), name)
        },
    }
}

/// Declares the model called `identifier` that the composite schema `target`
/// gives, and registers it under `at`.
fn compose_model(
    registry: &mut TypeRegistry,
    root: &Node,
    target: &RefOrObject<Schema>,
    at: &str,
    prefix: &str,
    identifier: &str,
    name: &str,
) -> (result: Result<GenerationResult, MacroError>)
    ensures
        agrees(
            result,
            final(registry)@,
            compose(*root, old(registry)@, target@, at@, prefix@, identifier@, name@),
        ),
    decreases remaining(*root, old(registry)@.pending, target@), target, 1int, 0int,
{
    let count = member_count(target);
    registry.open(at, Some(String::from_str(identifier)));
    let ghost start = registry@;
    let mut members = String::new();
    let mut used: Vec<String> = Vec::new();
    let mut i: usize = 0;
    assert(views(used@) == Seq::<Seq<char>>::empty() + names_given(
        Seq::empty(),
        member_stems(target@, name@),
        0,
    ));
    proof {
        lemma_remaining_opened(
            *root,
            old(registry)@.pending,
            target@,
            PendingView { pointer: at@, identifier: Some(identifier@) },
        );
        assert(start.pending.drop_last() == old(registry)@.pending);
    }
    while i < count
        invariant
            i <= count,
            count == member_shapes(target@).len(),
            start == opened(old(registry)@, at@, Some(identifier@)),
            start.pending.drop_last() == old(registry)@.pending,
            registry@.pending == start.pending,
            views(used@) == Seq::<Seq<char>>::empty() + names_given(
                Seq::empty(),
                member_stems(target@, name@),
                i as int,
            ),
            remaining(*root, start.pending, target@) <= remaining(
                *root,
                old(registry)@.pending,
                target@,
            ),
            members_from(
                *root,
                start,
                target@,
                at@,
                prefix@,
                identifier@,
                name@,
                0,
                Seq::empty(),
            ) == members_from(
                *root,
                registry@,
                target@,
                at@,
                prefix@,
                identifier@,
                name@,
                i as int,
                members@,
            ),
        decreases count - i,
    {
        let member = member_at(target, i);
        let label = member_label_text(target, name, i);
        let pointer = member_pointer_text(target, at, i);
        let given = unused_identifier(&used, member_stem_of(target, label.as_str()).as_str());
        proof {
            let stems = member_stems(target@, name@);
            let before = names_given(Seq::empty(), stems, i as int);
            assert(stems[i as int] == member_stem(target@, name@, i as int));
            assert(given@ == member_identifier(target@, name@, i as int));
            assert(views(used@.push(given)) == views(used@).push(given@));
            assert((Seq::<Seq<char>>::empty() + before).push(given@) == Seq::<Seq<char>>::empty()
                + before.push(given@));
        }
        proof {
            lemma_pointers_of_one(member_shapes(target@), i as int);
            lemma_remaining_part(*root, registry@.pending, target@, member@);
            lemma_declare_pending(
                *root,
                registry@,
                member@,
                pointer@,
                prefix@,
                identifier@,
                label@,
            );
            let declared = declare(
                *root,
                registry@,
                member@,
                pointer@,
                prefix@,
                identifier@,
                label@,
            );
            assert(with_pending(declared.state, registry@.pending) == declared.state);
        }
        match declare_schema(
            registry,
            root,
            member,
            pointer.as_str(),
            prefix,
            identifier,
            label.as_str(),
        ) {
            Ok(generated) => {
                let text = member_text_of(target, given.as_str(), generated.type_text());
                members.append(text.as_str());
                used.push(given);
            },
            Err(error) => {
                registry.close();
                proof {
                    assert(with_pending(registry@, old(registry)@.pending) == registry@);
                }
                return Err(error);
            },
        }
        i += 1;
    }
    registry.close();
    proof {
        assert(with_pending(registry@, old(registry)@.pending) == registry@);
    }
    let definition = model_text_of(target, identifier, members.as_str());
    let model = SchemaModel { identifier: String::from_str(identifier), definition };
    registry.register(at, model)
}

/// Declares what the schema under the pointer `schema_path` gives; the
/// models that are declared on the way are registered in `existing_models`.
///
/// A pointer that is registered is answered from the registry, which then
/// stays as it is. `schema_base_name` qualifies the names of the types.
/// Whatever is declared, what was registered stays where it was, and the
/// registry stays sound.
pub fn gen_schema_impl(
    existing_models: &mut TypeRegistry,
    root: &Node,
    schema_path: &str,
    schema_base_name: &str,
) -> (result: Result<GenerationResult, MacroError>)
    ensures
        agrees(
            result,
            final(existing_models)@,
            generated_at(*root, old(existing_models)@, schema_path@, schema_base_name@),
        ),
        grown_from(final(existing_models)@, old(existing_models)@),
        sound(old(existing_models)@) ==> sound(final(existing_models)@),
{
    proof {
        lemma_generated_sound(*root, existing_models@, schema_path@, schema_base_name@);
    }
    let target = RefOrObject::Ref { ref_path: String::from_str(schema_path) };
    proof {
        reveal_strlit("");
        assert(""@ == Seq::<char>::empty());
    }
    declare_schema(
        existing_models,
        root,
        &target,
        schema_path,
        schema_base_name,
        schema_base_name,
        "",
    )
}

} // verus!
