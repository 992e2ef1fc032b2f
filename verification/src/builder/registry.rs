//! The registry: the models that have been declared, what the pointers
//! have given, and the pointers that are being followed.

use crate::builder::rules::{
    answer, answer_index, chosen_identifier, entry_index, entry_named, first_free, lookup,
    name_count, opened, pending_index, pending_named, pending_of, qualified, registered,
    remembered, taken,
    type_of, with_pending, AnswerView, Declaration, EntryView, Generated, Outcome, PendingView,
    RegistryView,
};
use crate::error::{ErrorView, MacroError};
use crate::text::{chain, chain3, decimal_text, text_eq};
use crate::utils::casing::{type_identifier, type_label};
use vstd::prelude::*;

verus! {

/// A property: an identifier and the type of the field.
#[derive(Debug, Clone, PartialEq)]
pub struct SchemaProperty {
    pub identifier: String,
    pub definition: String,
}

/// A model: an identifier and the declaration of the type.
#[derive(Debug, Clone, PartialEq)]
pub struct SchemaModel {
    pub identifier: String,
    pub definition: String,
}

/// What a schema has given: a property for a primitive or a sequence, a model
/// for an object or a union.
#[derive(Debug, Clone, PartialEq)]
pub enum GenerationResult {
    Property(SchemaProperty),
    Model(SchemaModel),
}

impl View for SchemaProperty {
    type V = Declaration;

    open spec fn view(&self) -> Declaration {
        Declaration { identifier: self.identifier@, definition: self.definition@ }
    }
}

impl View for SchemaModel {
    type V = Declaration;

    open spec fn view(&self) -> Declaration {
        Declaration { identifier: self.identifier@, definition: self.definition@ }
    }
}

impl View for GenerationResult {
    type V = Generated;

    open spec fn view(&self) -> Generated {
        match self {
            GenerationResult::Property(property) => Generated::Property(property@),
            GenerationResult::Model(model) => Generated::Model(model@),
        }
    }
}

impl SchemaModel {
    /// A model that says the same.
    pub fn duplicate(&self) -> (copy: SchemaModel)
        ensures
            copy@ == self@,
    {
        SchemaModel { identifier: self.identifier.clone(), definition: self.definition.clone() }
    }
}

impl SchemaProperty {
    /// A property that says the same.
    pub fn duplicate(&self) -> (copy: SchemaProperty)
        ensures
            copy@ == self@,
    {
        SchemaProperty { identifier: self.identifier.clone(), definition: self.definition.clone() }
    }
}

impl GenerationResult {
    /// A result that says the same.
    pub fn duplicate(&self) -> (copy: GenerationResult)
        ensures
            copy@ == self@,
    {
        match self {
            GenerationResult::Property(property) => GenerationResult::Property(
                property.duplicate(),
            ),
            GenerationResult::Model(model) => GenerationResult::Model(model.duplicate()),
        }
    }

    /// The type by which a field refers to what was declared.
    pub fn type_text(&self) -> (text: &str)
        ensures
            text@ == type_of(self@),
    {
        match self {
            GenerationResult::Property(property) => property.definition.as_str(),
            GenerationResult::Model(model) => model.identifier.as_str(),
        }
    }
}

struct Entry {
    pointer: String,
    model: SchemaModel,
}

struct Answer {
    pointer: String,
    generated: GenerationResult,
}

struct Pending {
    pointer: String,
    identifier: Option<String>,
}

/// The identifier that a pending entry holds.
pub open spec fn option_text(text: Option<String>) -> Option<Seq<char>> {
    match text {
        Some(text) => Some(text@),
        None => None,
    }
}

impl View for Entry {
    type V = EntryView;

    closed spec fn view(&self) -> EntryView {
        EntryView { pointer: self.pointer@, model: self.model@ }
    }
}

impl View for Answer {
    type V = AnswerView;

    closed spec fn view(&self) -> AnswerView {
        AnswerView { pointer: self.pointer@, generated: self.generated@ }
    }
}

impl View for Pending {
    type V = PendingView;

    closed spec fn view(&self) -> PendingView {
        PendingView { pointer: self.pointer@, identifier: option_text(self.identifier) }
    }
}

/// The models that have been declared, each under the pointer of its schema,
/// what the pointers that were followed have given, and the pointers that are
/// being followed.
pub struct TypeRegistry {
    entries: Vec<Entry>,
    answers: Vec<Answer>,
    pending: Vec<Pending>,
}

impl View for TypeRegistry {
    type V = RegistryView;

    closed spec fn view(&self) -> RegistryView {
        RegistryView {
            entries: Seq::new(self.entries@.len(), |i: int| self.entries@[i]@),
            answers: Seq::new(self.answers@.len(), |i: int| self.answers@[i]@),
            pending: Seq::new(self.pending@.len(), |i: int| self.pending@[i]@),
        }
    }
}

/// Whether what a step returned, and the registry it left, are what
/// `outcome` says.
pub open spec fn agrees(
    result: Result<GenerationResult, MacroError>,
    state: RegistryView,
    outcome: Outcome,
) -> bool {
    &&& state == outcome.state
    &&& match result {
        Ok(generated) => outcome.result == Ok::<Generated, ErrorView>(generated@),
        Err(error) => outcome.result == Err::<Generated, ErrorView>(error@),
    }
}

impl TypeRegistry {
    /// A registry in which nothing is registered, nothing remembered and
    /// nothing pending.
    pub fn new() -> (registry: TypeRegistry)
        ensures
            registry@.entries.len() == 0,
            registry@.answers.len() == 0,
            registry@.pending.len() == 0,
            crate::builder::laws::sound(registry@),
    {
        TypeRegistry { entries: Vec::new(), answers: Vec::new(), pending: Vec::new() }
    }

    /// How many models are registered.
    pub fn len(&self) -> (n: usize)
        ensures
            n == self@.entries.len(),
    {
        self.entries.len()
    }

    /// The pointer under which the model `i` was registered.
    pub fn pointer_at(&self, i: usize) -> (pointer: &str)
        requires
            i < self@.entries.len(),
        ensures
            pointer@ == self@.entries[i as int].pointer,
    {
        self.entries[i].pointer.as_str()
    }

    /// The model that was registered as the one after `i` others.
    pub fn model_at(&self, i: usize) -> (model: &SchemaModel)
        requires
            i < self@.entries.len(),
        ensures
            model@ == self@.entries[i as int].model,
    {
        &self.entries[i].model
    }

    /// The model registered under `pointer`, if one is.
    pub fn get(&self, pointer: &str) -> (found: Option<&SchemaModel>)
        ensures
            match found {
                Some(model) => lookup(self@, pointer@) == Some(model@),
                None => lookup(self@, pointer@) is None,
            },
    {
        let mut i: usize = 0;
        while i < self.entries.len()
            invariant
                i <= self.entries.len(),
                entry_index(self@.entries, pointer@, 0) == entry_index(
                    self@.entries,
                    pointer@,
                    i as int,
                ),
            decreases self.entries.len() - i,
        {
            if text_eq(self.entries[i].pointer.as_str(), pointer) {
                return Some(&self.entries[i].model);
            }
            i += 1;
        }
        None
    }

    /// What `pointer` gave when it was followed, if it was.
    pub fn answer_to(&self, pointer: &str) -> (found: Option<&GenerationResult>)
        ensures
            match found {
                Some(generated) => answer(self@, pointer@) == Some(generated@),
                None => answer(self@, pointer@) is None,
            },
    {
        let mut i: usize = 0;
        while i < self.answers.len()
            invariant
                i <= self.answers.len(),
                answer_index(self@.answers, pointer@, 0) == answer_index(
                    self@.answers,
                    pointer@,
                    i as int,
                ),
            decreases self.answers.len() - i,
        {
            if text_eq(self.answers[i].pointer.as_str(), pointer) {
                return Some(&self.answers[i].generated);
            }
            i += 1;
        }
        None
    }

    /// The innermost pending entry of `pointer`, if the pointer is pending.
    fn find_pending(&self, pointer: &str) -> (found: Option<&Pending>)
        ensures
            match found {
                Some(pending) => pending_of(self@, pointer@) == Some(pending@),
                None => pending_of(self@, pointer@) is None,
            },
    {
        let mut i: usize = self.pending.len();
        while i > 0
            invariant
                i <= self.pending.len(),
                pending_index(self@.pending, pointer@, self@.pending.len() as int)
                    == pending_index(self@.pending, pointer@, i as int),
            decreases i,
        {
            if text_eq(self.pending[i - 1].pointer.as_str(), pointer) {
                return Some(&self.pending[i - 1]);
            }
            i -= 1;
        }
        None
    }

    /// Whether `pointer` is pending, and if it is, the identifier of the
    /// model that is being built under it, if one is.
    pub(crate) fn pending_identifier(&self, pointer: &str) -> (found: Option<Option<String>>)
        ensures
            match found {
                Some(identifier) => pending_of(self@, pointer@) is Some && pending_of(
                    self@,
                    pointer@,
                )->Some_0.identifier == option_text(identifier),
                None => pending_of(self@, pointer@) is None,
            },
    {
        match self.find_pending(pointer) {
            Some(pending) => Some(
                match &pending.identifier {
                    Some(identifier) => Some(identifier.clone()),
                    None => None,
                },
            ),
            None => None,
        }
    }

    /// Whether a model called `identifier` is registered or being built.
    pub fn is_taken(&self, identifier: &str) -> (found: bool)
        ensures
            found == taken(self@, identifier@),
    {
        let mut i: usize = 0;
        while i < self.entries.len()
            invariant
                i <= self.entries.len(),
                entry_named(self@.entries, identifier@, 0) == entry_named(
                    self@.entries,
                    identifier@,
                    i as int,
                ),
            decreases self.entries.len() - i,
        {
            if text_eq(self.entries[i].model.identifier.as_str(), identifier) {
                return true;
            }
            i += 1;
        }
        let mut k: usize = 0;
        while k < self.pending.len()
            invariant
                k <= self.pending.len(),
                entry_named(self@.entries, identifier@, 0) >= self@.entries.len(),
                pending_named(self@.pending, identifier@, 0) == pending_named(
                    self@.pending,
                    identifier@,
                    k as int,
                ),
            decreases self.pending.len() - k,
        {
            let same = match &self.pending[k].identifier {
                Some(held) => text_eq(held.as_str(), identifier),
                None => false,
            };
            if same {
                return true;
            }
            k += 1;
        }
        false
    }

    pub(crate) fn open(&mut self, pointer: &str, identifier: Option<String>)
        ensures
            final(self)@ == opened(old(self)@, pointer@, option_text(identifier)),
    {
        let entry = Pending { pointer: String::from_str(pointer), identifier };
        self.pending.push(entry);
        proof {
            assert(final(self)@.pending =~= old(self)@.pending.push(entry@));
            assert(final(self)@.entries =~= old(self)@.entries);
            assert(final(self)@.answers =~= old(self)@.answers);
        }
    }

    pub(crate) fn close(&mut self)
        requires
            old(self)@.pending.len() > 0,
        ensures
            final(self)@ == with_pending(old(self)@, old(self)@.pending.drop_last()),
    {
        self.pending.pop();
        proof {
            assert(final(self)@.pending =~= old(self)@.pending.drop_last());
            assert(final(self)@.entries =~= old(self)@.entries);
            assert(final(self)@.answers =~= old(self)@.answers);
        }
    }

    pub(crate) fn register(&mut self, pointer: &str, model: SchemaModel) -> (result: Result<
        GenerationResult,
        MacroError,
    >)
        ensures
            agrees(result, final(self)@, registered(old(self)@, pointer@, model@)),
    {
        if let Some(earlier) = self.get(pointer) {
            return Ok(GenerationResult::Model(earlier.duplicate()));
        }
        let entry = Entry { pointer: String::from_str(pointer), model: model.duplicate() };
        self.entries.push(entry);
        proof {
            assert(final(self)@.entries =~= old(self)@.entries.push(entry@));
            assert(final(self)@.pending =~= old(self)@.pending);
            assert(final(self)@.answers =~= old(self)@.answers);
        }
        Ok(GenerationResult::Model(model))
    }

    pub(crate) fn remember(&mut self, pointer: &str, generated: GenerationResult) -> (result: Result<
        GenerationResult,
        MacroError,
    >)
        ensures
            agrees(result, final(self)@, remembered(old(self)@, pointer@, generated@)),
    {
        if let Some(earlier) = self.answer_to(pointer) {
            return Ok(earlier.duplicate());
        }
        let entry = Answer { pointer: String::from_str(pointer), generated: generated.duplicate() };
        self.answers.push(entry);
        proof {
            assert(final(self)@.answers =~= old(self)@.answers.push(entry@));
            assert(final(self)@.entries =~= old(self)@.entries);
            assert(final(self)@.pending =~= old(self)@.pending);
        }
        Ok(generated)
    }

    /// The identifier for the model of the schema `name` at `at`, inside
    /// `base`.
    pub(crate) fn choose_identifier(&self, at: &str, base: &str, name: &str) -> (identifier: String)
        ensures
            identifier@ == chosen_identifier(self@, at@, base@, name@),
    {
        proof {
            reveal_strlit("_");
            assert("_"@ == seq!['_']);
        }
        let natural = type_identifier(chain3(base, "_", name).as_str());
        if !self.is_taken(natural.as_str()) {
            return natural;
        }
        let by_pointer = type_identifier(at);
        if !self.is_taken(by_pointer.as_str()) {
            return by_pointer;
        }
        let limit: u128 = self.entries.len() as u128 + self.pending.len() as u128 + 2;
        let mut k: u128 = 2;
        while k <= limit
            invariant
                2 <= k <= limit + 1,
                limit == name_count(self@) + 2,
                limit < u128::MAX,
                natural@ == type_label(qualified(base@, name@)),
                taken(self@, natural@),
                taken(self@, type_label(at@)),
                first_free(self@, natural@, 2, limit as nat) == first_free(
                    self@,
                    natural@,
                    k as nat,
                    limit as nat,
                ),
            decreases limit + 1 - k,
        {
            let candidate = chain(natural.as_str(), decimal_text(k).as_str());
            if !self.is_taken(candidate.as_str()) {
                return candidate;
            }
            k += 1;
        }
        chain(natural.as_str(), decimal_text(k).as_str())
    }
}

} // verus!
