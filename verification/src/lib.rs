//! The logic of a GraphQL extension for Ruby: coercion of input values and
//! of results, collection of fields and the steps of execution, the walk
//! over a schema's definitions, visibility, introspection, and the
//! messages of errors and of validation problems.
use vstd::prelude::*;

pub mod ruby_value;
pub mod text;
pub mod scalar;
pub mod coercion_path;
pub mod coercion_error;
pub mod input_schema;
pub mod scalar_coercion;
pub mod input_coercion;
pub mod inner_value;
pub mod parser_value;
pub mod path;
pub mod errors;
pub mod resolver_strategy;
pub mod introspection;
pub mod parser_coercion;
pub mod definitions;
pub mod output_schema;
pub mod result_coercion;
pub mod document;
pub mod type_source;
pub mod parsing;
pub mod engine;
pub mod collect_fields;
pub mod execution;
pub mod requests;
pub mod warden;
pub mod r_result;
pub mod schema_visitor;
pub mod checks;
pub mod validation;
pub mod laws;
pub mod behaviour_laws;

verus! {

} // verus!
