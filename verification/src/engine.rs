//! The execution of a request: choosing the operation, coercing the
//! variables and the arguments, and the errors that execution reports.
use vstd::prelude::*;

use crate::coercion_error::{CoercionError, CoercionErrorView, strings_view};
use crate::document::{Argument, ExecutableDocument, OperationDefinition, VariableDefinition};
use crate::input_coercion::{Coerced, CoercedView, CoercionFailure, FailureView, ScalarOutcome, spec_coerce};
use crate::input_schema::{
    BaseInputType, InputSchema, InputType, DeclaredType, schema_wf, spec_from_variable_type, spec_is_required,
    type_wf,
};
use crate::parser_coercion::{VariablesView, spec_coerce_parser, vars_view};
use crate::result_coercion::{FieldError, FieldErrorView, spec_field_error_message};
use crate::ruby_value::{RubyData, RubyValue};
use crate::scalar::BuiltinScalar;
use crate::output_schema::{
    ExtraResolverArg, FieldDefinition, SchemaDefinition, TypeDefinitionRef, first_named, schema_refs_wf,
    spec_contains_type, spec_implements_interface, spec_type_definition,
};
use crate::parser_coercion::var_lookup;
use crate::coercion_error::errors_view;
use crate::input_schema::{InputValueDefinition, base_wf};
use crate::parser_value::ParserValue;
use crate::text::{cat2, cat3, str_eq};

verus! {

/// What went wrong in the execution of a request.
#[derive(Debug)]
pub enum ExecutionError {
    NoOperationWithName { name: String },
    CannotUseAnonymousOperation,
    RequiredVariableMissingValue { name: String },
    ApplicationError(String),
    CoercionError(CoercionError),
    /// An error of the parser, by its message.
    ParseError(String),
    /// The error of a field, with the path of the field in the response.
    FieldError { error: FieldError, path: Vec<String> },
}

pub enum ExecutionErrorKind {
    NoOperationWithName { name: Seq<char> },
    CannotUseAnonymousOperation,
    RequiredVariableMissingValue { name: Seq<char> },
    ApplicationError(Seq<char>),
    CoercionError(CoercionErrorView),
    ParseError(Seq<char>),
    FieldError { error: FieldErrorView, path: Seq<Seq<char>> },
}

impl View for ExecutionError {
    type V = ExecutionErrorKind;

    open spec fn view(&self) -> ExecutionErrorKind {
        match self {
            ExecutionError::NoOperationWithName { name } => ExecutionErrorKind::NoOperationWithName { name: name@ },
            ExecutionError::CannotUseAnonymousOperation => ExecutionErrorKind::CannotUseAnonymousOperation,
            ExecutionError::RequiredVariableMissingValue { name } => ExecutionErrorKind::RequiredVariableMissingValue {
                name: name@,
            },
            ExecutionError::ApplicationError(m) => ExecutionErrorKind::ApplicationError(m@),
            ExecutionError::CoercionError(e) => ExecutionErrorKind::CoercionError(e@),
            ExecutionError::ParseError(m) => ExecutionErrorKind::ParseError(m@),
            ExecutionError::FieldError { error, path } => ExecutionErrorKind::FieldError {
                error: error@,
                path: strings_view(path@),
            },
        }
    }
}

/// The message and path of the error that Ruby code receives.
pub open spec fn spec_reported(e: ExecutionErrorKind) -> (Seq<char>, Option<Seq<Seq<char>>>) {
    match e {
        ExecutionErrorKind::NoOperationWithName { name } => ("No operation definition named `"@ + name + "`"@, None),
        ExecutionErrorKind::CannotUseAnonymousOperation => (
            "Operation name is required when document does not contain exactly 1 operation definition"@,
            None,
        ),
        ExecutionErrorKind::RequiredVariableMissingValue { name } => (
            "No value was provided for required variable `$"@ + name + "`"@,
            None,
        ),
        ExecutionErrorKind::ApplicationError(m) => ("Internal error: "@ + m, None),
        ExecutionErrorKind::CoercionError(e) => (e.0, None),
        ExecutionErrorKind::ParseError(m) => (m, None),
        ExecutionErrorKind::FieldError { error, path } => (spec_field_error_message(error), Some(path)),
    }
}

impl ExecutionError {
    /// The error that Ruby code receives: its message, and for a field's
    /// error the field's path.
    pub fn into_ruby(self) -> (r: crate::errors::ExecutionError)
        ensures
            r@.message == spec_reported(self@).0,
            r@.path == spec_reported(self@).1,
            r@.locations is None,
    {
        match self {
            ExecutionError::NoOperationWithName { name } => crate::errors::ExecutionError::new(
                cat3("No operation definition named `", name.as_str(), "`"),
                None,
                None,
            ),
            ExecutionError::CannotUseAnonymousOperation => crate::errors::ExecutionError::new(
                String::from_str(
                    "Operation name is required when document does not contain exactly 1 operation definition",
                ),
                None,
                None,
            ),
            ExecutionError::RequiredVariableMissingValue { name } => crate::errors::ExecutionError::new(
                cat3("No value was provided for required variable `$", name.as_str(), "`"),
                None,
                None,
            ),
            ExecutionError::ApplicationError(m) => crate::errors::ExecutionError::new(
                cat2("Internal error: ", m.as_str()),
                None,
                None,
            ),
            ExecutionError::CoercionError(e) => e.into_execution_error(),
            ExecutionError::ParseError(m) => crate::errors::ExecutionError::new(m, None, None),
            ExecutionError::FieldError { error, path } => {
                let m = error.message();
                crate::errors::ExecutionError::new(m, Some(path), None)
            },
        }
    }
}

/// The index of the first operation named `name`.
pub open spec fn operation_index_from(ops: Seq<OperationDefinition>, name: Seq<char>, k: int) -> Option<int>
    decreases ops.len() - k,
{
    if k < 0 || k >= ops.len() {
        None
    } else if ops[k].name matches Some(n) && n@ == name {
        Some(k)
    } else {
        operation_index_from(ops, name, k + 1)
    }
}

/// The operation that a request executes: the first one of the given name,
/// or, without a name, the document's only operation.
pub open spec fn spec_get_operation(doc: ExecutableDocument, operation_name: Option<Seq<char>>) -> Result<
    int,
    ExecutionErrorKind,
> {
    match operation_name {
        Some(name) => match operation_index_from(doc.operation_definitions@, name, 0) {
            Some(k) => Ok(k),
            None => Err(ExecutionErrorKind::NoOperationWithName { name }),
        },
        None => if doc.operation_definitions@.len() == 1 {
            Ok(0)
        } else {
            Err(ExecutionErrorKind::CannotUseAnonymousOperation)
        },
    }
}

/// The index of the operation that a request executes.
pub fn get_operation(doc: &ExecutableDocument, operation_name: Option<&str>) -> (r: Result<usize, ExecutionError>)
    ensures
        match r {
            Ok(k) => k < doc.operation_definitions@.len() && spec_get_operation(
                *doc,
                match operation_name {
                    Some(n) => Some(n@),
                    None => None,
                },
            ) == Ok::<int, ExecutionErrorKind>(k as int),
            Err(e) => spec_get_operation(
                *doc,
                match operation_name {
                    Some(n) => Some(n@),
                    None => None,
                },
            ) == Err::<int, ExecutionErrorKind>(e@),
        },
{
    match operation_name {
        Some(name) => {
            let mut k: usize = 0;
            while k < doc.operation_definitions.len()
                invariant
                    k <= doc.operation_definitions@.len(),
                    operation_name == Some(name),
                    operation_index_from(doc.operation_definitions@, name@, 0) == operation_index_from(
                        doc.operation_definitions@,
                        name@,
                        k as int,
                    ),
                decreases doc.operation_definitions@.len() - k,
            {
                let is_match = match &doc.operation_definitions[k].name {
                    Some(n) => str_eq(n.as_str(), name),
                    None => false,
                };
                if is_match {
                    return Ok(k);
                }
                k = k + 1;
            }
            Err(ExecutionError::NoOperationWithName { name: String::from_str(name) })
        },
        None => {
            if doc.operation_definitions.len() == 1 {
                Ok(0)
            } else {
                Err(ExecutionError::CannotUseAnonymousOperation)
            }
        },
    }
}

/// The name of the named type at the bottom of a variable's type.
pub open spec fn spec_variable_base_name(vt: DeclaredType) -> Seq<char>
    decreases vt,
{
    match vt {
        DeclaredType::Named(n, _) => n@,
        DeclaredType::List(inner, _) => spec_variable_base_name(*inner),
    }
}

/// The named input type of this name.
pub open spec fn spec_base_input_type_named(s: SchemaDefinition, name: Seq<char>) -> Option<BaseInputType> {
    match spec_type_definition(s, name) {
        Some(TypeDefinitionRef::BuiltinScalar(b)) => Some(BaseInputType::BuiltinScalar(b)),
        Some(TypeDefinitionRef::CustomScalar(k)) => Some(BaseInputType::CustomScalar(k)),
        Some(TypeDefinitionRef::Enum(k)) => Some(BaseInputType::Enum(k)),
        Some(TypeDefinitionRef::InputObject(k)) => Some(BaseInputType::InputObject(k)),
        _ => None,
    }
}

/// The input type of a variable: its named type, found in the schema,
/// with the variable's list wrappers.
pub open spec fn spec_variable_input_type(s: SchemaDefinition, vt: DeclaredType) -> Option<InputType> {
    match spec_base_input_type_named(s, spec_variable_base_name(vt)) {
        Some(base) => Some(spec_from_variable_type(vt, base)),
        None => None,
    }
}

proof fn lemma_first_named_in_range(len: nat, names: spec_fn(int) -> Seq<char>, name: Seq<char>, k: int)
    ensures
        first_named(len, names, name, k) matches Some(i) ==> 0 <= i < len,
    decreases len - k,
{
    if 0 <= k < len && names(k) != name {
        lemma_first_named_in_range(len, names, name, k + 1);
    }
}

proof fn lemma_base_named_wf(s: SchemaDefinition, name: Seq<char>)
    ensures
        spec_base_input_type_named(s, name) matches Some(b) ==> base_wf(s.input, b),
{
    lemma_first_named_in_range(s.input.custom_scalars@.len(), crate::output_schema::custom_scalar_names(s), name, 0);
    lemma_first_named_in_range(s.input.enums@.len(), crate::output_schema::enum_names(s), name, 0);
    lemma_first_named_in_range(s.input.input_objects@.len(), crate::output_schema::input_object_names(s), name, 0);
}

proof fn lemma_from_variable_type_wf(schema: InputSchema, vt: DeclaredType, base: BaseInputType)
    requires
        base_wf(schema, base),
    ensures
        type_wf(schema, spec_from_variable_type(vt, base)),
    decreases vt,
{
    match vt {
        DeclaredType::Named(_, _) => {},
        DeclaredType::List(inner, _) => lemma_from_variable_type_wf(schema, *inner, base),
    }
}

fn variable_base_name(vt: &DeclaredType) -> (r: &str)
    ensures
        r@ == spec_variable_base_name(*vt),
    decreases vt,
{
    match vt {
        DeclaredType::Named(n, _) => n.as_str(),
        DeclaredType::List(inner, _) => variable_base_name(inner),
    }
}

/// The input type of a variable, where its named type is an input type of
/// the schema.
pub fn variable_input_type(schema: &SchemaDefinition, vt: &DeclaredType) -> (r: Option<InputType>)
    ensures
        r == spec_variable_input_type(*schema, *vt),
        r matches Some(t) ==> type_wf(schema.input, t),
{
    let name = variable_base_name(vt);
    let base = match schema.type_definition(name) {
        Some(TypeDefinitionRef::BuiltinScalar(b)) => BaseInputType::BuiltinScalar(b),
        Some(TypeDefinitionRef::CustomScalar(k)) => BaseInputType::CustomScalar(k),
        Some(TypeDefinitionRef::Enum(k)) => BaseInputType::Enum(k),
        Some(TypeDefinitionRef::InputObject(k)) => BaseInputType::InputObject(k),
        _ => {
            return None;
        },
    };
    proof {
        lemma_base_named_wf(*schema, name@);
        lemma_from_variable_type_wf(schema.input, *vt, base);
    }
    Some(InputType::from_parser_variable_type(vt, base))
}

/// The hash after setting `key` to `value`: the first entry of that key is
/// replaced, or the entry is appended.
pub open spec fn spec_aset(h: VariablesView, key: Seq<char>, value: RubyData) -> VariablesView {
    match crate::engine::first_key_index(h, key, 0) {
        Some(k) => h.update(k, (key, value)),
        None => h.push((key, value)),
    }
}

pub open spec fn first_key_index(h: VariablesView, key: Seq<char>, k: int) -> Option<int>
    decreases h.len() - k,
{
    if k < 0 || k >= h.len() {
        None
    } else if h[k].0 == key {
        Some(k)
    } else {
        first_key_index(h, key, k + 1)
    }
}

/// Sets `key` to `value` in a hash of variable values.
pub fn aset(h: &mut Vec<(String, RubyValue)>, key: String, value: RubyValue)
    ensures
        vars_view(final(h)@) == spec_aset(vars_view(old(h)@), key@, value@),
{
    let ghost hv = vars_view(h@);
    let mut k: usize = 0;
    while k < h.len()
        invariant
            k <= h.len(),
            hv == vars_view(h@),
            h@ == old(h)@,
            first_key_index(hv, key@, 0) == first_key_index(hv, key@, k as int),
        decreases h.len() - k,
    {
        if str_eq(h[k].0.as_str(), key.as_str()) {
            let ghost kv = key@;
            let ghost vv = value@;
            h.set(k, (key, value));
            proof {
                assert(vars_view(h@) =~= hv.update(k as int, (kv, vv)));
            }
            return;
        }
        k = k + 1;
    }
    let ghost kv = key@;
    let ghost vv = value@;
    h.push((key, value));
    proof {
        assert(vars_view(h@) =~= hv.push((kv, vv)));
    }
}

/// The state of the coercion of variables: the failure that asks for a
/// custom scalar's coercion, or the values so far and the errors found.
pub type VarsState = Result<(VariablesView, Seq<ExecutionErrorKind>), FailureView>;

/// The errors of coercion, each reported as an execution error.
pub open spec fn coercion_errors_kind(es: Seq<CoercionErrorView>) -> Seq<ExecutionErrorKind> {
    es.map_values(|e: CoercionErrorView| ExecutionErrorKind::CoercionError(e))
}

/// A variable's coercion, taken into the state.
pub open spec fn absorb_variable(state: VarsState, name: Seq<char>, r: CoercedView) -> VarsState {
    match state {
        Err(f) => Err(f),
        Ok((vars, errs)) => match r {
            Ok(Ok(v)) => Ok((spec_aset(vars, name, v), errs)),
            Ok(Err(es)) => Ok((vars, errs + coercion_errors_kind(es))),
            Err(FailureView::RubyError(m)) => Ok((vars, errs.push(ExecutionErrorKind::ApplicationError(m)))),
            Err(f) => Err(f),
        },
    }
}

/// Every variable of the operation has an input type of the schema.
pub open spec fn variables_typed(s: SchemaDefinition, defs: Seq<VariableDefinition>) -> bool {
    forall|j: int| 0 <= j < defs.len() ==> (#[trigger] spec_variable_input_type(s, defs[j].variable_type)) is Some
}

/// The coercion of the first `n` variables of an operation: a default is
/// coerced where no value is given, a missing value of a required type is
/// an error, and a given value is coerced to the variable's type.
pub open spec fn spec_coerce_variables(
    s: SchemaDefinition,
    defs: Seq<VariableDefinition>,
    given: VariablesView,
    outcomes: Seq<ScalarOutcome>,
    n: nat,
) -> VarsState
    decreases n,
{
    if n == 0 || n > defs.len() {
        Ok((Seq::empty(), Seq::empty()))
    } else {
        let state = spec_coerce_variables(s, defs, given, outcomes, (n - 1) as nat);
        let vd = defs[n - 1];
        let name = vd.name@;
        let ty = spec_variable_input_type(s, vd.variable_type)->Some_0;
        let value = var_lookup(given, name);
        match (vd.default_value, value) {
            (Some(d), None) => absorb_variable(
                state,
                name,
                spec_coerce_parser(s.input, ty, d@, seq![name], Seq::empty(), true, outcomes),
            ),
            _ => if spec_is_required(ty) && value is None {
                match state {
                    Err(f) => Err(f),
                    Ok((vars, errs)) => Ok(
                        (vars, errs.push(ExecutionErrorKind::RequiredVariableMissingValue { name })),
                    ),
                }
            } else {
                absorb_variable(
                    state,
                    name,
                    spec_coerce(
                        s.input,
                        ty,
                        match value {
                            Some(v) => v,
                            None => RubyData::Nil,
                        },
                        seq![name],
                        true,
                        false,
                        outcomes,
                    ),
                )
            },
        }
    }
}

/// The contents of a list of execution errors.
pub open spec fn exec_errors_view(es: Seq<ExecutionError>) -> Seq<ExecutionErrorKind> {
    es.map_values(|e: ExecutionError| e@)
}

/// The coerced values of an operation's variables, or the errors found.
pub open spec fn spec_get_variable_values(
    s: SchemaDefinition,
    op: OperationDefinition,
    given: VariablesView,
    outcomes: Seq<ScalarOutcome>,
) -> Result<Result<VariablesView, Seq<ExecutionErrorKind>>, FailureView> {
    let state = match op.variable_definitions {
        None => Ok((Seq::empty(), Seq::empty())),
        Some(defs) => spec_coerce_variables(s, defs@, given, outcomes, defs@.len()),
    };
    match state {
        Err(f) => Err(f),
        Ok((vars, errs)) => if errs.len() == 0 {
            Ok(Ok(vars))
        } else {
            Ok(Err(errs))
        },
    }
}

pub open spec fn variables_result_view(r: Result<Result<Vec<(String, RubyValue)>, Vec<ExecutionError>>, CoercionFailure>) -> Result<
    Result<VariablesView, Seq<ExecutionErrorKind>>,
    FailureView,
> {
    match r {
        Err(f) => Err(f@),
        Ok(Ok(v)) => Ok(Ok(vars_view(v@))),
        Ok(Err(es)) => Ok(Err(exec_errors_view(es@))),
    }
}

proof fn lemma_variables_sticky(
    s: SchemaDefinition,
    defs: Seq<VariableDefinition>,
    given: VariablesView,
    outcomes: Seq<ScalarOutcome>,
    i: nat,
    n: nat,
)
    requires
        i <= n <= defs.len(),
        spec_coerce_variables(s, defs, given, outcomes, i) is Err,
    ensures
        spec_coerce_variables(s, defs, given, outcomes, n) == spec_coerce_variables(s, defs, given, outcomes, i),
    decreases n - i,
{
    if n > i {
        lemma_variables_sticky(s, defs, given, outcomes, i, (n - 1) as nat);
    }
}

/// Reports each coercion error as an execution error.
fn push_coercion_errors(errs: &mut Vec<ExecutionError>, es: Vec<CoercionError>)
    ensures
        exec_errors_view(final(errs)@) == exec_errors_view(old(errs)@) + coercion_errors_kind(errors_view(es@)),
{
    let mut es = es;
    let ghost start = exec_errors_view(errs@);
    let ghost all = errors_view(es@);
    let mut taken: Vec<CoercionError> = Vec::new();
    // Take the errors from the back, then report them in their order.
    while es.len() > 0
        invariant
            errors_view(es@) + errors_view(taken@).reverse() == all,
            exec_errors_view(errs@) == start,
        decreases es.len(),
    {
        let ghost before_es = es@;
        let ghost before_taken = taken@;
        let e = es.pop().unwrap();
        taken.push(e);
        proof {
            assert(errors_view(before_es) =~= errors_view(es@).push(e@));
            assert(errors_view(taken@) =~= errors_view(before_taken).push(e@));
            assert(errors_view(taken@).reverse() =~= seq![e@] + errors_view(before_taken).reverse());
            assert(errors_view(es@) + errors_view(taken@).reverse() =~= errors_view(before_es) + errors_view(
                before_taken,
            ).reverse());
        }
    }
    proof {
        assert(errors_view(es@) =~= Seq::<CoercionErrorView>::empty());
        assert(errors_view(taken@).reverse() =~= all);
    }
    let ghost tv = errors_view(taken@);
    proof {
        assert(errors_view(taken@) =~= tv.subrange(0, taken@.len() as int));
        assert(all.subrange(0, 0) =~= Seq::<CoercionErrorView>::empty());
        assert(coercion_errors_kind(Seq::<CoercionErrorView>::empty()) =~= Seq::<ExecutionErrorKind>::empty());
        assert(exec_errors_view(errs@) =~= start + coercion_errors_kind(all.subrange(0, 0)));
    }
    while taken.len() > 0
        invariant
            taken@.len() <= tv.len(),
            errors_view(taken@) == tv.subrange(0, taken@.len() as int),
            tv.reverse() == all,
            exec_errors_view(errs@) == start + coercion_errors_kind(all.subrange(0, (tv.len() - taken@.len()) as int)),
        decreases taken@.len(),
    {
        let ghost k = taken@.len();
        let ghost before_taken = taken@;
        let e = taken.pop().unwrap();
        let ghost before = exec_errors_view(errs@);
        proof {
            assert(errors_view(before_taken)[k - 1] == e@);
            assert(tv.subrange(0, k as int)[k - 1] == tv[k - 1]);
            assert(all[(tv.len() - k) as int] == tv[k - 1]);
            assert(errors_view(taken@) =~= tv.subrange(0, taken@.len() as int));
        }
        errs.push(ExecutionError::CoercionError(e));
        proof {
            let m = (tv.len() - k + 1) as int;
            assert(all.subrange(0, m) =~= all.subrange(0, m - 1).push(all[m - 1]));
            assert(coercion_errors_kind(all.subrange(0, m)) =~= coercion_errors_kind(all.subrange(0, m - 1)).push(
                ExecutionErrorKind::CoercionError(all[m - 1]),
            ));
            assert(exec_errors_view(errs@) =~= before.push(ExecutionErrorKind::CoercionError(e@)));
        }
    }
    proof {
        assert(all.subrange(0, all.len() as int) =~= all);
    }
}

/// Coerces the values of an operation's variables: for each variable in
/// order, its default where no value is given, an error where a required
/// variable has no value, and the given value otherwise.  Where a custom
/// scalar's coercion is needed and `outcomes` holds none for its path, the
/// result asks for it.
pub fn get_variable_values(
    schema: &SchemaDefinition,
    operation: &OperationDefinition,
    given: &Vec<(String, RubyValue)>,
    outcomes: &Vec<ScalarOutcome>,
) -> (r: Result<Result<Vec<(String, RubyValue)>, Vec<ExecutionError>>, CoercionFailure>)
    requires
        schema_wf(schema.input),
        operation.variable_definitions matches Some(defs) ==> variables_typed(*schema, defs@),
    ensures
        variables_result_view(r) == spec_get_variable_values(*schema, *operation, vars_view(given@), outcomes@),
{
    let mut vars: Vec<(String, RubyValue)> = Vec::new();
    let mut errs: Vec<ExecutionError> = Vec::new();
    proof {
        assert(vars_view(vars@) =~= Seq::<(Seq<char>, RubyData)>::empty());
        assert(exec_errors_view(errs@) =~= Seq::<ExecutionErrorKind>::empty());
    }
    let no_variables: Vec<(String, RubyValue)> = Vec::new();
    proof {
        assert(vars_view(no_variables@) =~= Seq::<(Seq<char>, RubyData)>::empty());
    }
    match &operation.variable_definitions {
        None => {},
        Some(defs) => {
            let ghost gv = vars_view(given@);
            let mut j: usize = 0;
            while j < defs.len()
                invariant
                    j <= defs@.len(),
                    operation.variable_definitions == Some(*defs),
                    schema_wf(schema.input),
                    variables_typed(*schema, defs@),
                    gv == vars_view(given@),
                    vars_view(no_variables@) == Seq::<(Seq<char>, RubyData)>::empty(),
                    spec_coerce_variables(*schema, defs@, gv, outcomes@, j as nat) == Ok::<
                        (VariablesView, Seq<ExecutionErrorKind>),
                        FailureView,
                    >((vars_view(vars@), exec_errors_view(errs@))),
                decreases defs@.len() - j,
            {
                let vd = &defs[j];
                proof {
                    assert(spec_variable_input_type(*schema, defs@[j as int].variable_type) is Some);
                }
                let ty = match variable_input_type(schema, &vd.variable_type) {
                    Some(t) => t,
                    None => {
                        return Err(CoercionFailure::RubyError(String::new()));
                    },
                };
                let found = crate::parser_coercion::find_variable(given, vd.name.as_str());
                let mut path: Vec<String> = Vec::new();
                path.push(vd.name.clone());
                proof {
                    assert(strings_view(path@) =~= seq![vd.name@]);
                }
                let r: Option<Coerced> = match (&vd.default_value, found) {
                    (Some(d), None) => Some(
                        crate::parser_coercion::coerce_parser(&schema.input, &ty, d, &path, &no_variables, true, outcomes),
                    ),
                    _ => {
                        if ty.is_required() && found.is_none() {
                            None
                        } else {
                            let nil = RubyValue::Nil;
                            let value = match found {
                                Some(k) => &given[k].1,
                                None => &nil,
                            };
                            Some(crate::input_coercion::coerce_ruby(&schema.input, &ty, value, &path, true, false, outcomes))
                        }
                    },
                };
                match r {
                    None => {
                        let ghost before = exec_errors_view(errs@);
                        errs.push(ExecutionError::RequiredVariableMissingValue { name: vd.name.clone() });
                        proof {
                            assert(exec_errors_view(errs@) =~= before.push(
                                ExecutionErrorKind::RequiredVariableMissingValue { name: vd.name@ },
                            ));
                        }
                    },
                    Some(Ok(Ok(v))) => {
                        aset(&mut vars, vd.name.clone(), v);
                    },
                    Some(Ok(Err(es))) => {
                        push_coercion_errors(&mut errs, es);
                    },
                    Some(Err(CoercionFailure::RubyError(m))) => {
                        let ghost before = exec_errors_view(errs@);
                        let ghost mv = m@;
                        errs.push(ExecutionError::ApplicationError(m));
                        proof {
                            assert(exec_errors_view(errs@) =~= before.push(ExecutionErrorKind::ApplicationError(mv)));
                        }
                    },
                    Some(Err(f)) => {
                        proof {
                            assert(f@ !is RubyError);
                            assert(spec_coerce_variables(*schema, defs@, gv, outcomes@, (j + 1) as nat) == Err::<
                                (VariablesView, Seq<ExecutionErrorKind>),
                                FailureView,
                            >(f@));
                            lemma_variables_sticky(*schema, defs@, gv, outcomes@, (j + 1) as nat, defs@.len());
                        }
                        return Err(f);
                    },
                }
                j = j + 1;
            }
        },
    }
    if errs.len() == 0 {
        Ok(Ok(vars))
    } else {
        Ok(Err(errs))
    }
}

/// The index of the first argument of this name.
pub open spec fn argument_index_from(args: Seq<Argument>, name: Seq<char>, k: int) -> Option<int>
    decreases args.len() - k,
{
    if k < 0 || k >= args.len() {
        None
    } else if args[k].name@ == name {
        Some(k)
    } else {
        argument_index_from(args, name, k + 1)
    }
}

/// The value written for the argument of this name, where there is one.
pub open spec fn spec_argument_value(args: Option<Vec<Argument>>, name: Seq<char>) -> Option<ParserValue> {
    match args {
        None => None,
        Some(a) => match argument_index_from(a@, name, 0) {
            Some(k) => Some(a@[k].value),
            None => None,
        },
    }
}

pub(crate) fn find_argument<'a>(args: &'a Option<Vec<Argument>>, name: &str) -> (r: Option<&'a ParserValue>)
    ensures
        match r {
            Some(v) => spec_argument_value(*args, name@) == Some(*v),
            None => spec_argument_value(*args, name@) is None,
        },
{
    match args {
        None => None,
        Some(a) => {
            let mut k: usize = 0;
            while k < a.len()
                invariant
                    *args == Some(*a),
                    k <= a@.len(),
                    argument_index_from(a@, name@, 0) == argument_index_from(a@, name@, k as int),
                decreases a@.len() - k,
            {
                if str_eq(a[k].name.as_str(), name) {
                    return Some(&a[k].value);
                }
                k = k + 1;
            }
            None
        },
    }
}

/// An argument whose type is required has a value written or a default:
/// execution has no answer for the other case.
pub open spec fn argument_answerable(def: InputValueDefinition, args: Option<Vec<Argument>>) -> bool {
    !(spec_argument_value(args, def.name@) is None && def.default_value is None && spec_is_required(def.input_type))
}

/// The result of a coercion for execution: a value, the errors to report,
/// or the failure that asks for a custom scalar's coercion.
pub type ArgumentResult = Result<Result<RubyData, Seq<ExecutionErrorKind>>, FailureView>;

/// A coercion's outcome, with its errors reported as execution errors.
pub open spec fn as_argument_result(r: CoercedView) -> ArgumentResult {
    match r {
        Ok(Ok(v)) => Ok(Ok(v)),
        Ok(Err(es)) => Ok(Err(coercion_errors_kind(es))),
        Err(FailureView::RubyError(m)) => Ok(Err(seq![ExecutionErrorKind::ApplicationError(m)])),
        Err(f) => Err(f),
    }
}

/// The value of an argument: its default where none is written, the
/// written value coerced to the argument's type, or `nil`.
pub open spec fn spec_coerce_argument_value(
    schema: InputSchema,
    def: InputValueDefinition,
    args: Option<Vec<Argument>>,
    vars: VariablesView,
    outcomes: Seq<ScalarOutcome>,
) -> ArgumentResult {
    let value = spec_argument_value(args, def.name@);
    match (def.default_value, value) {
        (Some(d), None) => Ok(Ok(d@)),
        (_, Some(v)) => as_argument_result(
            spec_coerce_parser(schema, def.input_type, v@, seq![def.name@], vars, true, outcomes),
        ),
        (None, None) => Ok(Ok(RubyData::Nil)),
    }
}

pub open spec fn argument_result_view(r: Result<Result<RubyValue, Vec<ExecutionError>>, CoercionFailure>) -> ArgumentResult {
    match r {
        Err(f) => Err(f@),
        Ok(Ok(v)) => Ok(Ok(v@)),
        Ok(Err(es)) => Ok(Err(exec_errors_view(es@))),
    }
}

/// Coerces the value of an argument of a field or directive.
pub fn coerce_argument_value(
    schema: &InputSchema,
    def: &InputValueDefinition,
    args: &Option<Vec<Argument>>,
    vars: &Vec<(String, RubyValue)>,
    outcomes: &Vec<ScalarOutcome>,
) -> (r: Result<Result<RubyValue, Vec<ExecutionError>>, CoercionFailure>)
    requires
        schema_wf(*schema),
        type_wf(*schema, def.input_type),
        argument_answerable(*def, *args),
    ensures
        argument_result_view(r) == spec_coerce_argument_value(*schema, *def, *args, vars_view(vars@), outcomes@),
{
    let value = find_argument(args, def.name.as_str());
    match (&def.default_value, value) {
        (Some(d), None) => Ok(Ok(d.duplicate())),
        (_, Some(v)) => {
            let mut path: Vec<String> = Vec::new();
            path.push(def.name.clone());
            proof {
                assert(strings_view(path@) =~= seq![def.name@]);
            }
            match crate::parser_coercion::coerce_parser(schema, &def.input_type, v, &path, vars, true, outcomes) {
                Ok(Ok(x)) => Ok(Ok(x)),
                Ok(Err(es)) => {
                    let mut errs: Vec<ExecutionError> = Vec::new();
                    push_coercion_errors(&mut errs, es);
                    proof {
                        assert(exec_errors_view(errs@) =~= coercion_errors_kind(errors_view(es@)));
                    }
                    Ok(Err(errs))
                },
                Err(CoercionFailure::RubyError(m)) => {
                    let ghost mv = m@;
                    let mut errs: Vec<ExecutionError> = Vec::new();
                    errs.push(ExecutionError::ApplicationError(m));
                    proof {
                        assert(exec_errors_view(errs@) =~= seq![ExecutionErrorKind::ApplicationError(mv)]);
                    }
                    Ok(Err(errs))
                },
                Err(f) => Err(f),
            }
        },
        (None, None) => Ok(Ok(RubyValue::Nil)),
    }
}

/// The state of the coercion of a field's arguments: the keyword arguments
/// so far and the errors found, or the failure that asks for a custom
/// scalar's coercion.
pub type KwargsState = Result<(VariablesView, Seq<ExecutionErrorKind>), FailureView>;

/// The coercion of the first `n` arguments of a field.
pub open spec fn spec_coerce_arguments(
    schema: InputSchema,
    defs: Seq<InputValueDefinition>,
    args: Option<Vec<Argument>>,
    vars: VariablesView,
    outcomes: Seq<ScalarOutcome>,
    n: nat,
) -> KwargsState
    decreases n,
{
    if n == 0 || n > defs.len() {
        Ok((Seq::empty(), Seq::empty()))
    } else {
        match spec_coerce_arguments(schema, defs, args, vars, outcomes, (n - 1) as nat) {
            Err(f) => Err(f),
            Ok((kw, errs)) => match spec_coerce_argument_value(schema, defs[n - 1], args, vars, outcomes) {
                Err(f) => Err(f),
                Ok(Ok(v)) => Ok((spec_aset(kw, defs[n - 1].ruby_name@, v), errs)),
                Ok(Err(es)) => Ok((kw, errs + es)),
            },
        }
    }
}

/// The keyword arguments after adding the first `n` extra resolver
/// arguments.
pub open spec fn spec_add_extra_args(
    kw: VariablesView,
    extras: Seq<ExtraResolverArg>,
    schema_class: RubyData,
    n: nat,
) -> VariablesView
    decreases n,
{
    if n == 0 || n > extras.len() {
        kw
    } else {
        spec_aset(spec_add_extra_args(kw, extras, schema_class, (n - 1) as nat), "schema_class"@, schema_class)
    }
}

/// The keyword arguments of a field's resolver: each argument's value
/// under its Ruby name, then the extra arguments; or the errors found.
pub open spec fn spec_coerce_argument_values(
    schema: InputSchema,
    fd: FieldDefinition,
    args: Option<Vec<Argument>>,
    vars: VariablesView,
    outcomes: Seq<ScalarOutcome>,
    schema_class: RubyData,
) -> Result<Result<VariablesView, Seq<ExecutionErrorKind>>, FailureView> {
    match spec_coerce_arguments(schema, fd.argument_definitions@, args, vars, outcomes, fd.argument_definitions@.len()) {
        Err(f) => Err(f),
        Ok((kw, errs)) => if errs.len() == 0 {
            Ok(Ok(spec_add_extra_args(kw, fd.extra_resolver_args@, schema_class, fd.extra_resolver_args@.len())))
        } else {
            Ok(Err(errs))
        },
    }
}

/// Every argument of the field can be answered.
pub open spec fn arguments_answerable(fd: FieldDefinition, args: Option<Vec<Argument>>) -> bool {
    forall|j: int|
        0 <= j < fd.argument_definitions@.len() ==> argument_answerable(#[trigger] fd.argument_definitions@[j], args)
}

/// Every argument type of the field names definitions of the schema.
pub open spec fn arguments_wf(schema: InputSchema, fd: FieldDefinition) -> bool {
    forall|j: int|
        0 <= j < fd.argument_definitions@.len() ==> type_wf(schema, #[trigger] fd.argument_definitions@[j].input_type)
}

proof fn lemma_arguments_sticky(
    schema: InputSchema,
    defs: Seq<InputValueDefinition>,
    args: Option<Vec<Argument>>,
    vars: VariablesView,
    outcomes: Seq<ScalarOutcome>,
    i: nat,
    n: nat,
)
    requires
        i <= n <= defs.len(),
        spec_coerce_arguments(schema, defs, args, vars, outcomes, i) is Err,
    ensures
        spec_coerce_arguments(schema, defs, args, vars, outcomes, n) == spec_coerce_arguments(
            schema,
            defs,
            args,
            vars,
            outcomes,
            i,
        ),
    decreases n - i,
{
    if n > i {
        lemma_arguments_sticky(schema, defs, args, vars, outcomes, i, (n - 1) as nat);
    }
}

/// Coerces the arguments of a field into the keyword arguments of its
/// resolver; `schema_class` is what the extra argument of the
/// introspection fields receives.
pub fn coerce_argument_values(
    schema: &InputSchema,
    fd: &FieldDefinition,
    args: &Option<Vec<Argument>>,
    vars: &Vec<(String, RubyValue)>,
    outcomes: &Vec<ScalarOutcome>,
    schema_class: &RubyValue,
) -> (r: Result<Result<Vec<(String, RubyValue)>, Vec<ExecutionError>>, CoercionFailure>)
    requires
        schema_wf(*schema),
        arguments_wf(*schema, *fd),
        arguments_answerable(*fd, *args),
    ensures
        variables_result_view(r) == spec_coerce_argument_values(
            *schema,
            *fd,
            *args,
            vars_view(vars@),
            outcomes@,
            schema_class@,
        ),
{
    let mut kw: Vec<(String, RubyValue)> = Vec::new();
    let mut errs: Vec<ExecutionError> = Vec::new();
    proof {
        assert(vars_view(kw@) =~= Seq::<(Seq<char>, RubyData)>::empty());
        assert(exec_errors_view(errs@) =~= Seq::<ExecutionErrorKind>::empty());
    }
    let ghost vv = vars_view(vars@);
    let mut j: usize = 0;
    while j < fd.argument_definitions.len()
        invariant
            j <= fd.argument_definitions@.len(),
            vv == vars_view(vars@),
            schema_wf(*schema),
            arguments_wf(*schema, *fd),
            arguments_answerable(*fd, *args),
            spec_coerce_arguments(*schema, fd.argument_definitions@, *args, vv, outcomes@, j as nat) == Ok::<
                (VariablesView, Seq<ExecutionErrorKind>),
                FailureView,
            >((vars_view(kw@), exec_errors_view(errs@))),
        decreases fd.argument_definitions@.len() - j,
    {
        let def = &fd.argument_definitions[j];
        proof {
            assert(type_wf(*schema, fd.argument_definitions@[j as int].input_type));
            assert(argument_answerable(fd.argument_definitions@[j as int], *args));
        }
        match coerce_argument_value(schema, def, args, vars, outcomes) {
            Err(f) => {
                proof {
                    lemma_arguments_sticky(
                        *schema,
                        fd.argument_definitions@,
                        *args,
                        vv,
                        outcomes@,
                        (j + 1) as nat,
                        fd.argument_definitions@.len(),
                    );
                }
                return Err(f);
            },
            Ok(Ok(v)) => {
                aset(&mut kw, def.ruby_name.clone(), v);
            },
            Ok(Err(mut es)) => {
                let ghost before = exec_errors_view(errs@);
                let ghost esv = exec_errors_view(es@);
                errs.append(&mut es);
                proof {
                    assert(exec_errors_view(errs@) =~= before + esv);
                }
            },
        }
        j = j + 1;
    }
    if errs.len() > 0 {
        return Ok(Err(errs));
    }
    let ghost base = vars_view(kw@);
    let mut k: usize = 0;
    while k < fd.extra_resolver_args.len()
        invariant
            k <= fd.extra_resolver_args@.len(),
            vars_view(kw@) == spec_add_extra_args(base, fd.extra_resolver_args@, schema_class@, k as nat),
        decreases fd.extra_resolver_args@.len() - k,
    {
        let key = String::from_str(fd.extra_resolver_args[k].kwarg_name());
        aset(&mut kw, key, schema_class.duplicate());
        k = k + 1;
    }
    Ok(Ok(kw))
}

/// Whether a type name names a type that fragments may target: an object,
/// an interface or a union.
pub open spec fn fragment_target(s: SchemaDefinition, name: Seq<char>) -> bool {
    match spec_type_definition(s, name) {
        Some(TypeDefinitionRef::Object(_)) | Some(TypeDefinitionRef::Interface(_)) | Some(TypeDefinitionRef::Union(_)) => true,
        _ => false,
    }
}

/// Whether a fragment whose type condition names `name` applies to the
/// object type `o`: the same object type, an interface it implements, or a
/// union it belongs to.
pub open spec fn spec_does_fragment_type_apply(s: SchemaDefinition, o: int, name: Seq<char>) -> bool {
    match spec_type_definition(s, name) {
        Some(TypeDefinitionRef::Object(k)) => s.objects@[k as int].name@ == s.objects@[o].name@,
        Some(TypeDefinitionRef::Interface(i)) => spec_implements_interface(s, o, i as int),
        Some(TypeDefinitionRef::Union(u)) => spec_contains_type(s, u as int, o),
        _ => false,
    }
}

proof fn lemma_type_definition_in_range(s: SchemaDefinition, name: Seq<char>)
    ensures
        match spec_type_definition(s, name) {
            Some(TypeDefinitionRef::CustomScalar(k)) => k < s.input.custom_scalars@.len(),
            Some(TypeDefinitionRef::Enum(k)) => k < s.input.enums@.len(),
            Some(TypeDefinitionRef::InputObject(k)) => k < s.input.input_objects@.len(),
            Some(TypeDefinitionRef::Object(k)) => k < s.objects@.len(),
            Some(TypeDefinitionRef::Interface(k)) => k < s.interfaces@.len(),
            Some(TypeDefinitionRef::Union(k)) => k < s.unions@.len(),
            _ => true,
        },
{
    lemma_first_named_in_range(s.input.custom_scalars@.len(), crate::output_schema::custom_scalar_names(s), name, 0);
    lemma_first_named_in_range(s.input.enums@.len(), crate::output_schema::enum_names(s), name, 0);
    lemma_first_named_in_range(s.input.input_objects@.len(), crate::output_schema::input_object_names(s), name, 0);
    lemma_first_named_in_range(s.objects@.len(), crate::output_schema::object_names(s), name, 0);
    lemma_first_named_in_range(s.interfaces@.len(), crate::output_schema::interface_names(s), name, 0);
    lemma_first_named_in_range(s.unions@.len(), crate::output_schema::union_names(s), name, 0);
}

/// Whether a fragment whose type condition names `name` applies to the
/// object type `o`.
pub fn does_fragment_type_apply(s: &SchemaDefinition, o: usize, name: &str) -> (r: bool)
    requires
        schema_refs_wf(*s),
        o < s.objects@.len(),
        fragment_target(*s, name@),
    ensures
        r == spec_does_fragment_type_apply(*s, o as int, name@),
{
    proof {
        lemma_type_definition_in_range(*s, name@);
    }
    match s.type_definition(name) {
        Some(TypeDefinitionRef::Object(k)) => str_eq(s.objects[k].name.as_str(), s.objects[o].name.as_str()),
        Some(TypeDefinitionRef::Interface(i)) => s.implements_interface(o, i),
        Some(TypeDefinitionRef::Union(u)) => s.contains_type(u, o),
        _ => false,
    }
}

/// The object type that a value of the interface `i` has, given the type
/// name its `resolve_typename` returned: the object type of that name,
/// where it implements the interface.
pub open spec fn spec_resolve_interface_type(s: SchemaDefinition, i: int, typename: Seq<char>) -> Option<int> {
    match spec_type_definition(s, typename) {
        Some(TypeDefinitionRef::Object(o)) => if spec_implements_interface(s, o as int, i) {
            Some(o as int)
        } else {
            None
        },
        _ => None,
    }
}

/// The object type that a value of the union `u` has, given the type name
/// its `resolve_typename` returned: the object type of that name, where it
/// is a member of the union.
pub open spec fn spec_resolve_union_type(s: SchemaDefinition, u: int, typename: Seq<char>) -> Option<int> {
    match spec_type_definition(s, typename) {
        Some(TypeDefinitionRef::Object(o)) => if spec_contains_type(s, u, o as int) {
            Some(o as int)
        } else {
            None
        },
        _ => None,
    }
}

/// The object type of a value of an interface; `None` where the type name
/// names no object type implementing it, which execution cannot go on from.
pub fn resolve_interface_type(s: &SchemaDefinition, i: usize, typename: &str) -> (r: Option<usize>)
    requires
        schema_refs_wf(*s),
        i < s.interfaces@.len(),
    ensures
        match r {
            Some(o) => o < s.objects@.len() && spec_resolve_interface_type(*s, i as int, typename@) == Some(o as int),
            None => spec_resolve_interface_type(*s, i as int, typename@) is None,
        },
{
    proof {
        lemma_type_definition_in_range(*s, typename@);
    }
    match s.type_definition(typename) {
        Some(TypeDefinitionRef::Object(o)) => if s.implements_interface(o, i) {
            Some(o)
        } else {
            None
        },
        _ => None,
    }
}

/// The object type of a value of a union; `None` where the type name names
/// no object type of the union, which execution cannot go on from.
pub fn resolve_union_type(s: &SchemaDefinition, u: usize, typename: &str) -> (r: Option<usize>)
    requires
        schema_refs_wf(*s),
        u < s.unions@.len(),
    ensures
        match r {
            Some(o) => o < s.objects@.len() && spec_resolve_union_type(*s, u as int, typename@) == Some(o as int),
            None => spec_resolve_union_type(*s, u as int, typename@) is None,
        },
{
    proof {
        lemma_type_definition_in_range(*s, typename@);
    }
    match s.type_definition(typename) {
        Some(TypeDefinitionRef::Object(o)) => if s.contains_type(u, o) {
            Some(o)
        } else {
            None
        },
        _ => None,
    }
}

/// Coerces a list of argument definitions' values from the arguments
/// written for them: the keyword arguments and the errors found.
pub fn coerce_arguments(
    schema: &InputSchema,
    defs: &Vec<InputValueDefinition>,
    args: &Option<Vec<Argument>>,
    vars: &Vec<(String, RubyValue)>,
    outcomes: &Vec<ScalarOutcome>,
) -> (r: Result<(Vec<(String, RubyValue)>, Vec<ExecutionError>), CoercionFailure>)
    requires
        schema_wf(*schema),
        forall|j: int| 0 <= j < defs@.len() ==> type_wf(*schema, #[trigger] defs@[j].input_type),
        forall|j: int| 0 <= j < defs@.len() ==> argument_answerable(#[trigger] defs@[j], *args),
    ensures
        match r {
            Ok((kw, errs)) => spec_coerce_arguments(*schema, defs@, *args, vars_view(vars@), outcomes@, defs@.len())
                == Ok::<(VariablesView, Seq<ExecutionErrorKind>), FailureView>(
                (vars_view(kw@), exec_errors_view(errs@)),
            ),
            Err(f) => spec_coerce_arguments(*schema, defs@, *args, vars_view(vars@), outcomes@, defs@.len()) == Err::<
                (VariablesView, Seq<ExecutionErrorKind>),
                FailureView,
            >(f@),
        },
{
    let mut kw: Vec<(String, RubyValue)> = Vec::new();
    let mut errs: Vec<ExecutionError> = Vec::new();
    proof {
        assert(vars_view(kw@) =~= Seq::<(Seq<char>, RubyData)>::empty());
        assert(exec_errors_view(errs@) =~= Seq::<ExecutionErrorKind>::empty());
    }
    let ghost vv = vars_view(vars@);
    let mut j: usize = 0;
    while j < defs.len()
        invariant
            j <= defs@.len(),
            vv == vars_view(vars@),
            schema_wf(*schema),
            forall|i: int| 0 <= i < defs@.len() ==> type_wf(*schema, #[trigger] defs@[i].input_type),
            forall|i: int| 0 <= i < defs@.len() ==> argument_answerable(#[trigger] defs@[i], *args),
            spec_coerce_arguments(*schema, defs@, *args, vv, outcomes@, j as nat) == Ok::<
                (VariablesView, Seq<ExecutionErrorKind>),
                FailureView,
            >((vars_view(kw@), exec_errors_view(errs@))),
        decreases defs@.len() - j,
    {
        let def = &defs[j];
        proof {
            assert(type_wf(*schema, defs@[j as int].input_type));
            assert(argument_answerable(defs@[j as int], *args));
        }
        match coerce_argument_value(schema, def, args, vars, outcomes) {
            Err(f) => {
                proof {
                    lemma_arguments_sticky(*schema, defs@, *args, vv, outcomes@, (j + 1) as nat, defs@.len());
                }
                return Err(f);
            },
            Ok(Ok(v)) => {
                aset(&mut kw, def.ruby_name.clone(), v);
            },
            Ok(Err(mut es)) => {
                let ghost before = exec_errors_view(errs@);
                let ghost esv = exec_errors_view(es@);
                errs.append(&mut es);
                proof {
                    assert(exec_errors_view(errs@) =~= before + esv);
                }
            },
        }
        j = j + 1;
    }
    Ok((kw, errs))
}

pub proof fn lemma_field_index_found(fields: Seq<FieldDefinition>, name: Seq<char>, k: int)
    ensures
        crate::output_schema::field_index_from(fields, name, k) matches Some(i) ==> 0 <= i < fields.len(),
    decreases fields.len() - k,
{
    if 0 <= k < fields.len() && fields[k].name@ != name {
        lemma_field_index_found(fields, name, k + 1);
    }
}

} // verus!
