//! Plain values standing for an executable GraphQL document as the parser
//! reads it.
use vstd::prelude::*;

use crate::input_schema::DeclaredType;
use crate::parser_value::ParserValue;

verus! {

/// An argument written in a document.
#[derive(Debug)]
pub struct Argument {
    pub name: String,
    pub value: ParserValue,
}

/// A directive written in a document, such as `@skip(if: $x)`.
#[derive(Debug)]
pub struct ExecutableDirective {
    pub name: String,
    pub arguments: Option<Vec<Argument>>,
}

/// A selection of a selection set.
#[derive(Debug)]
pub enum Selection {
    Field(Field),
    FragmentSpread { name: String, directives: Vec<ExecutableDirective> },
    InlineFragment {
        type_condition: Option<String>,
        directives: Vec<ExecutableDirective>,
        selection_set: Vec<Selection>,
    },
}

/// A field selected in a document.
#[derive(Debug)]
pub struct Field {
    pub alias: Option<String>,
    pub name: String,
    pub arguments: Option<Vec<Argument>>,
    pub directives: Vec<ExecutableDirective>,
    pub selection_set: Option<Vec<Selection>>,
}

/// The key of a field in the response: its alias, or its name.
pub open spec fn spec_response_key(f: Field) -> Seq<char> {
    match f.alias {
        Some(a) => a@,
        None => f.name@,
    }
}

impl Field {
    /// The key of the field in the response: its alias, or its name.
    pub fn response_key(&self) -> (r: &str)
        ensures
            r@ == spec_response_key(*self),
    {
        match &self.alias {
            Some(a) => a.as_str(),
            None => self.name.as_str(),
        }
    }
}

/// A fragment definition.
#[derive(Debug)]
pub struct FragmentDefinition {
    pub name: String,
    pub type_condition: String,
    pub directives: Vec<ExecutableDirective>,
    pub selection_set: Vec<Selection>,
}

/// A variable declared by an operation.
#[derive(Debug)]
pub struct VariableDefinition {
    pub name: String,
    pub variable_type: DeclaredType,
    pub default_value: Option<ParserValue>,
}

#[derive(Clone, Copy, Debug, PartialEq, Eq, Structural)]
pub enum OperationType {
    Query,
    Mutation,
    Subscription,
}

/// An operation of a document.
#[derive(Debug)]
pub struct OperationDefinition {
    pub operation_type: OperationType,
    pub name: Option<String>,
    pub variable_definitions: Option<Vec<VariableDefinition>>,
    pub directives: Vec<ExecutableDirective>,
    pub selection_set: Vec<Selection>,
}

/// An executable document: its operations and fragments.
#[derive(Debug)]
pub struct ExecutableDocument {
    pub operation_definitions: Vec<OperationDefinition>,
    pub fragment_definitions: Vec<FragmentDefinition>,
}

} // verus!
