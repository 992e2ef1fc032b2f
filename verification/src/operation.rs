//! The methods of the client: one for each operation of the document.

use crate::agnostic::document::{ApiDocument, OperationEntryView};
use crate::agnostic::operation::{
    deprecation, name_operation, operation_name, request_text, write_request, OperationView,
    VersionAgnosticOperation,
};
use crate::builder::rules::EntryView;
use crate::builder::TypeRegistry;
use crate::documentation::{generate_api_operation_docs, operation_docs};
use crate::error::MacroError;
use crate::text::{literal, literal_text, views};
use crate::utils::casing::{
    field_identifier, field_label, is_identifier, is_type_identifier, type_identifier, type_label,
};
use crate::utils::casing_laws::{lemma_field_label_is_identifier, lemma_type_label_is_identifier};
use crate::utils::unique::{lemma_names_given, name_given, names_given, unused_identifier};
use vstd::prelude::*;

verus! {

/// The method of an operation, and the builder of its requests: the
/// identifier and the text of the declaration of each.
#[derive(Debug, PartialEq)]
pub struct OperationMethod {
    pub builder_identifier: String,
    pub builder_declaration: String,
    pub function_identifier: String,
    pub function_declaration: String,
}

pub struct MethodView {
    pub builder_identifier: Seq<char>,
    pub builder_declaration: Seq<char>,
    pub function_identifier: Seq<char>,
    pub function_declaration: Seq<char>,
}

impl View for OperationMethod {
    type V = MethodView;

    open spec fn view(&self) -> MethodView {
        MethodView {
            builder_identifier: self.builder_identifier@,
            builder_declaration: self.builder_declaration@,
            function_identifier: self.function_identifier@,
            function_declaration: self.function_declaration@,
        }
    }
}

/// The declaration of the builder called `identifier` for the requests of an
/// operation: a record that holds the client by which its requests are sent.
/// It carries `docs` and is marked where the operation is deprecated.
pub open spec fn builder_text(docs: Seq<char>, deprecated: bool, identifier: Seq<char>) -> Seq<
    char,
> {
    deprecation(deprecated) + "#[doc = "@ + literal(docs) + "] pub struct "@ + identifier
        + "<'a> { pub client: &'a Client }"@
}

/// The method of the operation `operation`, declared on `path` under
/// `method`, where the method is called `function_identifier` and its builder
/// `builder_identifier`. Both carry the documentation of the operation and
/// are marked where the operation is deprecated; the method sends the
/// request.
pub open spec fn method_named(
    path: Seq<char>,
    method: Seq<char>,
    operation: OperationView,
    function_identifier: Seq<char>,
    builder_identifier: Seq<char>,
) -> MethodView {
    MethodView {
        builder_identifier,
        builder_declaration: builder_text(
            operation_docs(operation),
            operation.deprecated,
            builder_identifier,
        ),
        function_identifier,
        function_declaration: request_text(
            path,
            method,
            operation_docs(operation),
            operation.deprecated,
            function_identifier,
        ),
    }
}

/// The method of one operation by itself: the builder is called by the name
/// of the operation as a type identifier, the method by that name as a field
/// identifier.
pub open spec fn method_of(path: Seq<char>, method: Seq<char>, operation: OperationView) -> MethodView {
    let name = operation_name(operation.operation_id, method, path);
    method_named(path, method, operation, field_label(name), type_label(name))
}

pub open spec fn name_of_entry(entry: OperationEntryView) -> Seq<char> {
    operation_name(entry.operation.operation_id, entry.method, entry.path)
}

/// The names that the methods of `operations` would have, each by itself.
pub open spec fn function_stems(operations: Seq<OperationEntryView>) -> Seq<Seq<char>> {
    Seq::new(operations.len(), |i: int| field_label(name_of_entry(operations[i])))
}

/// The names that the builders of `operations` would have, each by itself.
pub open spec fn builder_stems(operations: Seq<OperationEntryView>) -> Seq<Seq<char>> {
    Seq::new(operations.len(), |i: int| type_label(name_of_entry(operations[i])))
}

/// The methods of `operations`, in order, in a client whose types are called
/// `types`. The methods are kept apart: where the name of a method is used by
/// one before it, it gets a number. So are the builders, from each other and
/// from the types.
pub open spec fn methods_of(operations: Seq<OperationEntryView>, types: Seq<Seq<char>>) -> Seq<
    MethodView,
> {
    Seq::new(
        operations.len(),
        |i: int|
            method_named(
                operations[i].path,
                operations[i].method,
                operations[i].operation,
                name_given(Seq::empty(), function_stems(operations), i),
                name_given(types, builder_stems(operations), i),
            ),
    )
}

/// What the methods of `methods` say, in order.
pub open spec fn method_views(methods: Seq<OperationMethod>) -> Seq<MethodView> {
    Seq::new(methods.len(), |i: int| methods[i]@)
}

/// The methods can stand in one client beside the types called `types`:
/// each method and each builder is called by an identifier, no two methods
/// are called the same, and no builder is called as another or as a type.
pub open spec fn well_called(methods: Seq<MethodView>, types: Seq<Seq<char>>) -> bool {
    &&& forall|i: int|
        0 <= i < methods.len() ==> is_identifier((#[trigger] methods[i]).function_identifier)
            && is_type_identifier(methods[i].builder_identifier) && !types.contains(
            methods[i].builder_identifier,
        )
    &&& forall|i: int, j: int|
        0 <= i < j < methods.len() ==> (#[trigger] methods[i]).function_identifier != (
        #[trigger] methods[j]).function_identifier && methods[i].builder_identifier
            != methods[j].builder_identifier
}

/// Whatever the operations are called, their methods can stand in one
/// client.
pub proof fn lemma_methods_well_called(operations: Seq<OperationEntryView>, types: Seq<Seq<char>>)
    ensures
        well_called(methods_of(operations, types), types),
{
    let methods = methods_of(operations, types);
    let n = operations.len() as int;
    let functions = function_stems(operations);
    let builders = builder_stems(operations);
    lemma_names_given(Seq::empty(), functions, n);
    lemma_names_given(types, builders, n);
    let given_functions = names_given(Seq::empty(), functions, n);
    let given_builders = names_given(types, builders, n);
    assert forall|i: int| 0 <= i < methods.len() implies is_identifier(
        (#[trigger] methods[i]).function_identifier,
    ) && is_type_identifier(methods[i].builder_identifier) && !types.contains(
        methods[i].builder_identifier,
    ) by {
        lemma_field_label_is_identifier(name_of_entry(operations[i]));
        lemma_type_label_is_identifier(name_of_entry(operations[i]));
        assert(given_functions[i] == methods[i].function_identifier);
        assert(given_builders[i] == methods[i].builder_identifier);
    }
    assert forall|i: int, j: int| 0 <= i < j < methods.len() implies (
    #[trigger] methods[i]).function_identifier != (#[trigger] methods[j]).function_identifier
        && methods[i].builder_identifier != methods[j].builder_identifier by {
        assert(given_functions[i] == methods[i].function_identifier);
        assert(given_functions[j] == methods[j].function_identifier);
        assert(given_builders[i] == methods[i].builder_identifier);
        assert(given_builders[j] == methods[j].builder_identifier);
    }
}

/// Writes the declaration of the builder called `identifier` for the
/// requests of an operation.
pub fn write_builder(docs: &str, deprecated: bool, identifier: &str) -> (declaration: String)
    ensures
        declaration@ == builder_text(docs@, deprecated, identifier@),
{
    let mut result = String::new();
    if deprecated {
        result.append("#[deprecated] ");
    }
    result.append("#[doc = ");
    result.append(literal_text(docs).as_str());
    result.append("] pub struct ");
    result.append(identifier);
    result.append("<'a> { pub client: &'a Client }");
    result
}

fn write_method(
    path: &str,
    method: &str,
    operation: &VersionAgnosticOperation,
    function_identifier: String,
    builder_identifier: String,
) -> (written: OperationMethod)
    ensures
        written@ == method_named(
            path@,
            method@,
            operation@,
            function_identifier@,
            builder_identifier@,
        ),
{
    // Generating docs with the operation
    let operation_docs = generate_api_operation_docs(operation);

    // Building out the text of the function & builder declaration
    let builder_declaration = write_builder(
        operation_docs.as_str(),
        operation.deprecated,
        builder_identifier.as_str(),
    );
    let function_declaration = write_request(
        path,
        method,
        operation_docs.as_str(),
        operation.deprecated,
        function_identifier.as_str(),
    );

    OperationMethod {
        builder_identifier,
        builder_declaration,
        function_identifier,
        function_declaration,
    }
}

/// Declares the method of `operation` by itself. The method and its builder
/// are called by identifiers, whatever the operation is called. The registry
/// is left as it is.
pub fn generate_operation_method(
    type_map: &mut TypeRegistry,
    path: &str,
    method: &str,
    operation: &VersionAgnosticOperation,
) -> (result: Result<OperationMethod, MacroError>)
    ensures
        result is Ok,
        result->Ok_0@ == method_of(path@, method@, operation@),
        is_identifier(result->Ok_0@.function_identifier),
        is_type_identifier(result->Ok_0@.builder_identifier),
        final(type_map)@ == old(type_map)@,
{
    // Getting the operation name, and making an identifier for the builder and function out of it
    let operation_name = name_operation(&operation.operation_id, method, path);
    let builder_identifier = type_identifier(operation_name.as_str());
    let function_identifier = field_identifier(operation_name.as_str());

    // Returning the final value
    Ok(write_method(path, method, operation, function_identifier, builder_identifier))
}

/// The names of the models of `entries`, in order.
pub open spec fn model_names(entries: Seq<EntryView>) -> Seq<Seq<char>> {
    Seq::new(entries.len(), |i: int| entries[i].model.identifier)
}

/// Declares the methods of the operations of `api_spec`, in their order, for
/// a client that holds the models of `type_map`. The methods can stand in one
/// client beside those models. The registry is left as it is.
pub fn generate_operation_methods(type_map: &mut TypeRegistry, api_spec: &ApiDocument) -> (result:
    Result<Vec<OperationMethod>, MacroError>)
    ensures
        result is Ok,
        method_views(result->Ok_0@) == methods_of(
            api_spec@.operations,
            model_names(old(type_map)@.entries),
        ),
        well_called(method_views(result->Ok_0@), model_names(old(type_map)@.entries)),
        final(type_map)@ == old(type_map)@,
{
    let ghost entries = api_spec@.operations;
    let ghost types = model_names(type_map@.entries);
    let ghost functions = function_stems(entries);
    let ghost builders = builder_stems(entries);
    proof {
        lemma_methods_well_called(entries, types);
    }
    let mut used_types: Vec<String> = Vec::new();
    let mut k: usize = 0;
    while k < type_map.len()
        invariant
            k <= type_map@.entries.len(),
            type_map@ == old(type_map)@,
            types == model_names(type_map@.entries),
            views(used_types@) == types.take(k as int),
        decreases type_map@.entries.len() - k,
    {
        let name = type_map.model_at(k).identifier.clone();
        proof {
            assert(views(used_types@.push(name)) == types.take(k as int).push(types[k as int]));
            assert(types.take(k + 1) == types.take(k as int).push(types[k as int]));
        }
        used_types.push(name);
        k += 1;
    }
    let mut used_functions: Vec<String> = Vec::new();
    let mut operations = Vec::<OperationMethod>::new();
    let mut i: usize = 0;
    proof {
        assert(types.take(types.len() as int) == types);
        assert(views(used_types@) == types + names_given(types, builders, 0));
        assert(views(used_functions@) == Seq::<Seq<char>>::empty() + names_given(
            Seq::empty(),
            functions,
            0,
        ));
    }
    while i < api_spec.operations.len()
        invariant
            i <= api_spec.operations.len(),
            operations.len() == i,
            type_map@ == old(type_map)@,
            entries == api_spec@.operations,
            functions == function_stems(entries),
            builders == builder_stems(entries),
            views(used_functions@) == Seq::<Seq<char>>::empty() + names_given(
                Seq::empty(),
                functions,
                i as int,
            ),
            views(used_types@) == types + names_given(types, builders, i as int),
            forall|k: int|
                0 <= k < i ==> (#[trigger] operations@[k])@ == methods_of(entries, types)[k],
        decreases api_spec.operations.len() - i,
    {
        let entry = &api_spec.operations[i];
        assert(entries[i as int] == entry@);
        let operation_name = name_operation(
            &entry.operation.operation_id,
            entry.method.as_str(),
            entry.path.as_str(),
        );
        let function_identifier = unused_identifier(
            &used_functions,
            field_identifier(operation_name.as_str()).as_str(),
        );
        let builder_identifier = unused_identifier(
            &used_types,
            type_identifier(operation_name.as_str()).as_str(),
        );
        proof {
            assert(function_identifier@ == name_given(Seq::empty(), functions, i as int));
            assert(builder_identifier@ == name_given(types, builders, i as int));
            let given = names_given(Seq::empty(), functions, i as int);
            assert(views(used_functions@.push(function_identifier)) == Seq::<Seq<char>>::empty()
                + given.push(function_identifier@));
            let built = names_given(types, builders, i as int);
            assert(views(used_types@.push(builder_identifier)) == views(used_types@).push(
                builder_identifier@,
            ));
            assert((types + built).push(builder_identifier@) == types + built.push(
                builder_identifier@,
            ));
            assert(views(used_types@.push(builder_identifier)) == types + built.push(
                builder_identifier@,
            ));
        }
        let method = write_method(
            entry.path.as_str(),
            entry.method.as_str(),
            &entry.operation,
            function_identifier.clone(),
            builder_identifier.clone(),
        );
        used_functions.push(function_identifier);
        used_types.push(builder_identifier);
        operations.push(method);
        i += 1;
    }
    assert(method_views(operations@) =~= methods_of(entries, types));
    Ok(operations)
}

} // verus!
