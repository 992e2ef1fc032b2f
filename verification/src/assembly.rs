//! Client assembly: the documentation, the server, the methods and the
//! models of a document, put together as one artifact.

use crate::agnostic::document::{normalize, normalized, unsupported_text, ApiView};
use crate::builder::laws::{lemma_generated_sound, sound};
use crate::builder::rules::{generated_at, Declaration, EntryView, RegistryView};
use crate::utils::casing::is_type_identifier;
use crate::builder::{gen_schema_impl, SchemaModel, TypeRegistry};
use crate::document::{json_tree, parse_document, Node};
use crate::documentation::{generate_api_module_docs, module_docs};
use crate::error::{failure, ErrorKind, ErrorView, MacroError};
use crate::operation::{
    generate_operation_methods, lemma_methods_well_called, method_views, methods_of, model_names,
    well_called, MethodView, OperationMethod,
};
use crate::text::{literal, literal_text};
use vstd::prelude::*;

verus! {

/// What is handed to the emitter: the documentation of the module, the URL
/// and the declaration of the server, one method for each operation, and the
/// models in the order in which they were registered.
#[derive(Debug, PartialEq)]
pub struct ClientArtifact {
    pub documentation: String,
    pub base_url: String,
    pub server_declaration: String,
    pub methods: Vec<OperationMethod>,
    pub models: Vec<SchemaModel>,
}

pub struct ArtifactView {
    pub documentation: Seq<char>,
    pub base_url: Seq<char>,
    pub server_declaration: Seq<char>,
    pub methods: Seq<MethodView>,
    pub models: Seq<Declaration>,
}

/// What the models of `models` say, in order.
pub open spec fn model_views(models: Seq<SchemaModel>) -> Seq<Declaration> {
    Seq::new(models.len(), |i: int| models[i]@)
}

impl View for ClientArtifact {
    type V = ArtifactView;

    open spec fn view(&self) -> ArtifactView {
        ArtifactView {
            documentation: self.documentation@,
            base_url: self.base_url@,
            server_declaration: self.server_declaration@,
            methods: method_views(self.methods@),
            models: model_views(self.models@),
        }
    }
}

/// The declaration of the servers of a client: the one that the document
/// names, and any other by its URL.
pub open spec fn server_text(base_url: Seq<char>) -> Seq<char> {
    "pub enum Server { Default, Custom { url: String } } impl BaseServer for Server { fn url(&self) -> &str { match self { Server::Default => "@
        + literal(base_url)
        + ", Server::Custom { url } => url } } } impl Default for Server { fn default() -> Self { Server::Default } }"@
}

/// The registry at the beginning of a run.
pub open spec fn empty_registry() -> RegistryView {
    RegistryView { entries: Seq::empty(), answers: Seq::empty(), pending: Seq::empty() }
}

/// The registry after the schemas under `pointers[from..]` have been
/// declared one after the other, or the error of the first that fails.
pub open spec fn declared_all(
    root: Node,
    state: RegistryView,
    pointers: Seq<Seq<char>>,
    from: int,
) -> Result<RegistryView, ErrorView>
    decreases pointers.len() - from,
{
    if !(0 <= from < pointers.len()) {
        Ok(state)
    } else {
        let declared = generated_at(root, state, pointers[from], Seq::empty());
        match declared.result {
            Err(error) => Err(error),
            Ok(_) => declared_all(root, declared.state, pointers, from + 1),
        }
    }
}

/// The models of `entries`, in order.
pub open spec fn models_of(entries: Seq<EntryView>) -> Seq<Declaration> {
    Seq::new(entries.len(), |i: int| entries[i].model)
}

/// The artifact of the document `api` with the tree `root`, or the error of
/// the first of its schemas that cannot be declared.
pub open spec fn artifact_of(root: Node, api: ApiView) -> Result<ArtifactView, ErrorView> {
    match declared_all(root, empty_registry(), api.schemas, 0) {
        Err(error) => Err(error),
        Ok(state) => Ok(
            ArtifactView {
                documentation: module_docs(api.info),
                base_url: api.base_url,
                server_declaration: server_text(api.base_url),
                methods: methods_of(api.operations, model_names(state.entries)),
                models: models_of(state.entries),
            },
        ),
    }
}

/// The artifact of the document with the tree `root`: the document is
/// brought into the one model, and each of its named schemas is declared.
/// There is an artifact, or one error and nothing else.
pub open spec fn assembled(root: Node) -> Result<ArtifactView, ErrorView> {
    match normalized(root) {
        Err(error) => Err(error),
        Ok(api) => artifact_of(root, api),
    }
}

/// What the text of a document gives: a text that is no JSON is malformed,
/// any other gives what its tree gives.
pub open spec fn generated(text: Seq<char>) -> Result<ArtifactView, ErrorView> {
    match json_tree(text) {
        None => Err(failure(ErrorKind::InvalidInput, unsupported_text())),
        Some(root) => assembled(root),
    }
}

/// The models of an artifact can stand side by side: each is called by an
/// identifier, and no two are called the same.
pub open spec fn well_named(models: Seq<Declaration>) -> bool {
    &&& forall|i: int| 0 <= i < models.len() ==> is_type_identifier((#[trigger] models[i]).identifier)
    &&& forall|i: int, j: int|
        0 <= i < j < models.len() ==> (#[trigger] models[i]).identifier != (
        #[trigger] models[j]).identifier
}

/// What the models of `models` are called, in order.
pub open spec fn declared_names(models: Seq<Declaration>) -> Seq<Seq<char>> {
    Seq::new(models.len(), |i: int| models[i].identifier)
}

/// Declaring schema after schema keeps the registry sound.
pub(crate) proof fn lemma_declared_all_sound(
    root: Node,
    state: RegistryView,
    pointers: Seq<Seq<char>>,
    from: int,
)
    requires
        sound(state),
        declared_all(root, state, pointers, from) is Ok,
    ensures
        sound(declared_all(root, state, pointers, from)->Ok_0),
    decreases pointers.len() - from,
{
    if 0 <= from < pointers.len() {
        lemma_generated_sound(root, state, pointers[from], Seq::empty());
        lemma_declared_all_sound(
            root,
            generated_at(root, state, pointers[from], Seq::empty()).state,
            pointers,
            from + 1,
        );
    }
}

/// Whatever the document, the models of its artifact are well named, and
/// its methods can stand in one client beside them.
pub proof fn lemma_assembled_well_named(root: Node)
    requires
        assembled(root) is Ok,
    ensures
        well_named(assembled(root)->Ok_0.models),
        well_called(
            assembled(root)->Ok_0.methods,
            declared_names(assembled(root)->Ok_0.models),
        ),
{
    let api0 = normalized(root)->Ok_0;
    let state0 = declared_all(root, empty_registry(), api0.schemas, 0)->Ok_0;
    lemma_methods_well_called(api0.operations, model_names(state0.entries));
    assert(declared_names(models_of(state0.entries)) == model_names(state0.entries));
    let api = normalized(root)->Ok_0;
    lemma_declared_all_sound(root, empty_registry(), api.schemas, 0);
    let state = declared_all(root, empty_registry(), api.schemas, 0)->Ok_0;
    let models = models_of(state.entries);
    assert forall|i: int| 0 <= i < models.len() implies is_type_identifier(
        (#[trigger] models[i]).identifier,
    ) by {
        assert(models[i] == state.entries[i].model);
    }
    assert forall|i: int, j: int| 0 <= i < j < models.len() implies (
    #[trigger] models[i]).identifier != (#[trigger] models[j]).identifier by {
        assert(models[i] == state.entries[i].model);
        assert(models[j] == state.entries[j].model);
    }
}

/// Whether `result` is what `wanted` says.
pub open spec fn delivers(
    result: Result<ClientArtifact, MacroError>,
    wanted: Result<ArtifactView, ErrorView>,
) -> bool {
    match result {
        Ok(artifact) => wanted == Ok::<ArtifactView, ErrorView>(artifact@),
        Err(error) => wanted == Err::<ArtifactView, ErrorView>(error@),
    }
}

/// Puts together the artifact of the document with the tree `root`. Its
/// models are well named, and its methods can stand in one client beside
/// them.
pub fn assemble(root: &Node) -> (result: Result<ClientArtifact, MacroError>)
    ensures
        delivers(result, assembled(*root)),
        result is Ok ==> well_named(result->Ok_0@.models) && well_called(
            result->Ok_0@.methods,
            declared_names(result->Ok_0@.models),
        ),
{
    proof {
        if assembled(*root) is Ok {
            lemma_assembled_well_named(*root);
        }
    }
    let api = normalize(root)?;

    // Getting some meta-data about the API to generate documentation with
    let documentation = generate_api_module_docs(&api.info);

    // Creating a registry and filling it with the named schemas
    let mut registry = TypeRegistry::new();
    proof {
        assert(registry@.entries =~= empty_registry().entries);
        assert(registry@.answers =~= empty_registry().answers);
        assert(registry@.pending =~= empty_registry().pending);
    }
    let mut i: usize = 0;
    while i < api.schemas.len()
        invariant
            i <= api.schemas.len(),
            normalized(*root) == Ok::<ApiView, ErrorView>(api@),
            declared_all(*root, empty_registry(), api@.schemas, 0) == declared_all(
                *root,
                registry@,
                api@.schemas,
                i as int,
            ),
        decreases api.schemas.len() - i,
    {
        proof {
            reveal_strlit("");
            assert(""@ == Seq::<char>::empty());
            assert(api@.schemas[i as int] == api.schemas@[i as int]@);
        }
        match gen_schema_impl(&mut registry, root, api.schemas[i].as_str(), "") {
            Ok(_) => {},
            Err(error) => {
                return Err(error);
            },
        }
        i += 1;
    }
    // Getting a list of generated operation methods
    let methods = generate_operation_methods(&mut registry, &api)?;

    let mut models: Vec<SchemaModel> = Vec::new();
    let mut k: usize = 0;
    while k < registry.len()
        invariant
            k <= registry@.entries.len(),
            models.len() == k,
            forall|j: int| 0 <= j < k ==> (#[trigger] models@[j])@ == registry@.entries[j].model,
        decreases registry@.entries.len() - k,
    {
        models.push(registry.model_at(k).duplicate());
        k += 1;
    }
    assert(model_views(models@) =~= models_of(registry@.entries));

    let mut server_declaration = String::from_str(
        "pub enum Server { Default, Custom { url: String } } impl BaseServer for Server { fn url(&self) -> &str { match self { Server::Default => ",
    );
    server_declaration.append(literal_text(api.base_url.as_str()).as_str());
    server_declaration.append(
        ", Server::Custom { url } => url } } } impl Default for Server { fn default() -> Self { Server::Default } }",
    );

    Ok(
        ClientArtifact {
            documentation,
            base_url: api.base_url,
            server_declaration,
            methods,
            models,
        },
    )
}

/// Generates the artifact of the document that `text` holds. Its models are
/// well named, and its methods can stand in one client beside them.
pub fn generate_client(text: &str) -> (result: Result<ClientArtifact, MacroError>)
    ensures
        delivers(result, generated(text@)),
        result is Ok ==> well_named(result->Ok_0@.models) && well_called(
            result->Ok_0@.methods,
            declared_names(result->Ok_0@.models),
        ),
{
    // Parsing the OpenAPI documentation
    match parse_document(text) {
        Some(root) => assemble(&root),
        None => Err(
            MacroError::new(
                ErrorKind::InvalidInput,
                "OpenAPI documentation provided is of an unsupported format/version or malformed.",
            ),
        ),
    }
}

} // verus!
