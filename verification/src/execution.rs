//! The decisions of executing a selection set: what to do with a field,
//! how a resolver's value is completed to the field's type, and how the
//! completed values make up the response.  The caller performs the Ruby
//! calls that the decisions ask for and hands back what they returned.
use vstd::prelude::*;

use crate::coercion_error::strings_view;
use crate::document::Field;
use crate::engine::{
    ExecutionError, ExecutionErrorKind, aset, arguments_answerable, arguments_wf, coerce_argument_values,
    exec_errors_view, spec_aset, spec_coerce_argument_values,
};
use crate::input_coercion::{CoercionFailure, FailureView, ScalarOutcome};
use crate::input_schema::schema_wf;
use crate::output_schema::{
    BaseOutputType, FieldDefinition, OutputType, SchemaDefinition, field_index_from, spec_output_is_required,
};
use crate::parser_coercion::{VariablesView, vars_view};
use crate::result_coercion::{
    FieldError, FieldErrorView, coerce_enum_result, spec_builtin_result_ok, spec_enum_result_ok,
};
use crate::ruby_value::{RubyData, RubyValue, lemma_array_view, lemma_value_parts, values_view, entries_view};

verus! {

/// What completing a resolver's value to a field's type asks for next.
#[derive(Debug)]
pub enum CompletionStep {
    /// The completed value and the errors found.
    Done { value: RubyValue, errors: Vec<ExecutionError> },
    /// The custom scalar's `coerce_result` is to be called with the value.
    CoerceCustomScalar { scalar: usize },
    /// The value's `resolve_typename` is to be called, to find its object
    /// type among those of the interface or union.
    ResolveTypename,
    /// The fields' selections are to be executed on the value, of this
    /// object type.
    SelectionSet { object: usize },
    /// Each element of the list is to be completed to the element type,
    /// at the path extended by its index.
    CompleteItems,
}

pub enum StepView {
    Done { value: RubyData, errors: Seq<ExecutionErrorKind> },
    CoerceCustomScalar { scalar: usize },
    ResolveTypename,
    SelectionSet { object: usize },
    CompleteItems,
}

impl View for CompletionStep {
    type V = StepView;

    open spec fn view(&self) -> StepView {
        match self {
            CompletionStep::Done { value, errors } => StepView::Done { value: value@, errors: exec_errors_view(errors@) },
            CompletionStep::CoerceCustomScalar { scalar } => StepView::CoerceCustomScalar { scalar: *scalar },
            CompletionStep::ResolveTypename => StepView::ResolveTypename,
            CompletionStep::SelectionSet { object } => StepView::SelectionSet { object: *object },
            CompletionStep::CompleteItems => StepView::CompleteItems,
        }
    }
}

/// A field error reported at `path`.
pub open spec fn field_error_at(e: FieldErrorView, path: Seq<Seq<char>>) -> Seq<ExecutionErrorKind> {
    seq![ExecutionErrorKind::FieldError { error: e, path }]
}

/// The first step of completing a resolver's value to a field's type:
/// `nil` is an error for a required type and complete otherwise; a
/// built-in scalar or enum value is checked; the other types ask for more.
pub open spec fn spec_complete_value_step(
    s: SchemaDefinition,
    ty: OutputType,
    result: RubyData,
    path: Seq<Seq<char>>,
) -> StepView {
    if result is Nil {
        if spec_output_is_required(ty) {
            StepView::Done {
                value: RubyData::Nil,
                errors: field_error_at(FieldErrorView::ReturnedNullForNonNullType, path),
            }
        } else {
            StepView::Done { value: RubyData::Nil, errors: Seq::empty() }
        }
    } else {
        match ty {
            OutputType::Base(base, _) => match base {
                BaseOutputType::BuiltinScalar(b) => if spec_builtin_result_ok(b, result) {
                    StepView::Done { value: result, errors: Seq::empty() }
                } else {
                    StepView::Done {
                        value: RubyData::Nil,
                        errors: field_error_at(FieldErrorView::CannotCoerceResultToBuiltinScalar { builtin_scalar: b }, path),
                    }
                },
                BaseOutputType::Enum(e) => if spec_enum_result_ok(s.input, e, result) {
                    StepView::Done { value: result, errors: Seq::empty() }
                } else {
                    StepView::Done {
                        value: RubyData::Nil,
                        errors: field_error_at(FieldErrorView::CannotCoerceResultToEnumType, path),
                    }
                },
                BaseOutputType::CustomScalar(c) => StepView::CoerceCustomScalar { scalar: c },
                BaseOutputType::Object(o) => StepView::SelectionSet { object: o },
                BaseOutputType::Interface(_) | BaseOutputType::Union(_) => StepView::ResolveTypename,
            },
            OutputType::List(_, _) => if result is Array {
                StepView::CompleteItems
            } else {
                StepView::Done {
                    value: RubyData::Nil,
                    errors: field_error_at(FieldErrorView::ReturnedNonListForListType, path),
                }
            },
        }
    }
}

/// A field error at `path`, as a list of one execution error.
fn field_error_list(e: FieldError, path: &Vec<String>) -> (r: Vec<ExecutionError>)
    ensures
        exec_errors_view(r@) == field_error_at(e@, strings_view(path@)),
{
    let ghost ev = e@;
    let mut v: Vec<ExecutionError> = Vec::new();
    v.push(ExecutionError::FieldError { error: e, path: crate::coercion_error::clone_strings(path) });
    proof {
        assert(exec_errors_view(v@) =~= field_error_at(ev, strings_view(path@)));
    }
    v
}

/// The first step of completing a resolver's value to a field's type.
pub fn complete_value_step(
    s: &SchemaDefinition,
    ty: &OutputType,
    result: &RubyValue,
    path: &Vec<String>,
) -> (r: CompletionStep)
    requires
        crate::output_schema::output_type_wf(*s, *ty),
    ensures
        r@ == spec_complete_value_step(*s, *ty, result@, strings_view(path@)),
{
    if let RubyValue::Nil = result {
        if ty.is_required() {
            return CompletionStep::Done {
                value: RubyValue::Nil,
                errors: field_error_list(FieldError::ReturnedNullForNonNullType, path),
            };
        } else {
            let errors: Vec<ExecutionError> = Vec::new();
            proof {
                assert(exec_errors_view(errors@) =~= Seq::<ExecutionErrorKind>::empty());
            }
            return CompletionStep::Done { value: RubyValue::Nil, errors };
        }
    }
    let no_errors: Vec<ExecutionError> = Vec::new();
    proof {
        assert(exec_errors_view(no_errors@) =~= Seq::<ExecutionErrorKind>::empty());
    }
    match ty {
        OutputType::Base(base, _) => match base {
            BaseOutputType::BuiltinScalar(b) => match b.coerce_result(result) {
                Ok(v) => CompletionStep::Done { value: v, errors: no_errors },
                Err(e) => CompletionStep::Done { value: RubyValue::Nil, errors: field_error_list(e, path) },
            },
            BaseOutputType::Enum(e) => match coerce_enum_result(&s.input, *e, result) {
                Ok(v) => CompletionStep::Done { value: v, errors: no_errors },
                Err(err) => CompletionStep::Done { value: RubyValue::Nil, errors: field_error_list(err, path) },
            },
            BaseOutputType::CustomScalar(c) => CompletionStep::CoerceCustomScalar { scalar: *c },
            BaseOutputType::Object(o) => CompletionStep::SelectionSet { object: *o },
            BaseOutputType::Interface(_) | BaseOutputType::Union(_) => CompletionStep::ResolveTypename,
        },
        OutputType::List(_, _) => match result {
            RubyValue::Array(_) => CompletionStep::CompleteItems,
            _ => CompletionStep::Done {
                value: RubyValue::Nil,
                errors: field_error_list(FieldError::ReturnedNonListForListType, path),
            },
        },
    }
}

/// The completion of a custom scalar's value, given what its result
/// coercion gave.
pub open spec fn spec_finish_custom_scalar(r: Result<RubyData, FieldErrorView>, path: Seq<Seq<char>>) -> (
    RubyData,
    Seq<ExecutionErrorKind>,
) {
    match r {
        Ok(v) => (v, Seq::empty()),
        Err(e) => (RubyData::Nil, field_error_at(e, path)),
    }
}

/// Completes a custom scalar's value from what its result coercion gave.
pub fn finish_custom_scalar(r: Result<RubyValue, FieldError>, path: &Vec<String>) -> (out: (RubyValue, Vec<ExecutionError>))
    ensures
        (out.0@, exec_errors_view(out.1@)) == spec_finish_custom_scalar(
            crate::result_coercion::result_view(r),
            strings_view(path@),
        ),
{
    match r {
        Ok(v) => {
            let errors: Vec<ExecutionError> = Vec::new();
            proof {
                assert(exec_errors_view(errors@) =~= Seq::<ExecutionErrorKind>::empty());
            }
            (v, errors)
        },
        Err(e) => (RubyValue::Nil, field_error_list(e, path)),
    }
}

/// The completed values of a list's elements, with their errors, make up
/// the list; where the element type is required and an element is `nil`,
/// the list itself is `nil`.
pub open spec fn spec_finish_list(
    inner: OutputType,
    items: Seq<(RubyData, Seq<ExecutionErrorKind>)>,
) -> (RubyData, Seq<ExecutionErrorKind>) {
    let values = items.map_values(|x: (RubyData, Seq<ExecutionErrorKind>)| x.0);
    let errors = all_errors(items, items.len());
    let has_null = exists|k: int| 0 <= k < items.len() && (#[trigger] items[k]).0 is Nil;
    if spec_output_is_required(inner) && has_null {
        (RubyData::Nil, errors)
    } else {
        (RubyData::Array(values), errors)
    }
}

/// The errors of the first `n` completed values, in order.
pub open spec fn all_errors(items: Seq<(RubyData, Seq<ExecutionErrorKind>)>, n: nat) -> Seq<ExecutionErrorKind>
    decreases n,
{
    if n == 0 || n > items.len() {
        Seq::empty()
    } else {
        all_errors(items, (n - 1) as nat) + items[n - 1].1
    }
}

/// The contents of completed values with their errors.
pub open spec fn completed_view(v: Seq<(RubyValue, Vec<ExecutionError>)>) -> Seq<(RubyData, Seq<ExecutionErrorKind>)> {
    v.map_values(|x: (RubyValue, Vec<ExecutionError>)| (x.0@, exec_errors_view(x.1@)))
}

/// Makes up a list from the completed values of its elements.
pub fn finish_list(inner: &OutputType, items: Vec<(RubyValue, Vec<ExecutionError>)>) -> (out: (RubyValue, Vec<ExecutionError>))
    ensures
        (out.0@, exec_errors_view(out.1@)) == spec_finish_list(*inner, completed_view(items@)),
{
    let ghost iv = completed_view(items@);
    let mut items = items;
    let mut rev: Vec<(RubyValue, Vec<ExecutionError>)> = Vec::new();
    while items.len() > 0
        invariant
            completed_view(items@) + completed_view(rev@).reverse() == iv,
        decreases items.len(),
    {
        let ghost bi = items@;
        let ghost br = rev@;
        let x = items.pop().unwrap();
        rev.push(x);
        proof {
            assert(completed_view(bi) =~= completed_view(items@).push((x.0@, exec_errors_view(x.1@))));
            assert(completed_view(rev@) =~= completed_view(br).push((x.0@, exec_errors_view(x.1@))));
            assert(completed_view(rev@).reverse() =~= seq![(x.0@, exec_errors_view(x.1@))] + completed_view(br).reverse());
            assert(completed_view(items@) + completed_view(rev@).reverse() =~= completed_view(bi) + completed_view(
                br,
            ).reverse());
        }
    }
    proof {
        assert(completed_view(items@) =~= Seq::<(RubyData, Seq<ExecutionErrorKind>)>::empty());
        assert(completed_view(rev@).reverse() =~= iv);
    }
    let ghost rv = completed_view(rev@);
    let mut values: Vec<RubyValue> = Vec::new();
    let mut errors: Vec<ExecutionError> = Vec::new();
    let mut has_null = false;
    proof {
        assert(values_view(values@) =~= Seq::<RubyData>::empty());
        assert(exec_errors_view(errors@) =~= Seq::<ExecutionErrorKind>::empty());
    }
    while rev.len() > 0
        invariant
            rev@.len() <= rv.len(),
            completed_view(rev@) == rv.subrange(0, rev@.len() as int),
            rv.reverse() == iv,
            values_view(values@) == iv.subrange(0, (rv.len() - rev@.len()) as int).map_values(
                |x: (RubyData, Seq<ExecutionErrorKind>)| x.0,
            ),
            exec_errors_view(errors@) == all_errors(iv, (rv.len() - rev@.len()) as nat),
            has_null == exists|k: int| 0 <= k < rv.len() - rev@.len() && (#[trigger] iv[k]).0 is Nil,
        decreases rev@.len(),
    {
        let ghost k = rev@.len();
        let ghost br = rev@;
        let (v, mut es) = rev.pop().unwrap();
        let ghost m = (rv.len() - k) as int;
        proof {
            assert(completed_view(br)[k - 1] == (v@, exec_errors_view(es@)));
            assert(rv.subrange(0, k as int)[k - 1] == rv[k - 1]);
            assert(iv[m] == rv[k - 1]);
            assert(completed_view(rev@) =~= rv.subrange(0, rev@.len() as int));
        }
        if let RubyValue::Nil = v {
            has_null = true;
        }
        let ghost bv = values_view(values@);
        let ghost be = exec_errors_view(errors@);
        let ghost esv = exec_errors_view(es@);
        values.push(v);
        errors.append(&mut es);
        proof {
            assert(values_view(values@) =~= bv.push(iv[m].0));
            assert(iv.subrange(0, m + 1) =~= iv.subrange(0, m).push(iv[m]));
            assert(iv.subrange(0, m + 1).map_values(|x: (RubyData, Seq<ExecutionErrorKind>)| x.0) =~= iv.subrange(
                0,
                m,
            ).map_values(|x: (RubyData, Seq<ExecutionErrorKind>)| x.0).push(iv[m].0));
            assert(exec_errors_view(errors@) =~= be + esv);
            assert(all_errors(iv, (m + 1) as nat) == all_errors(iv, m as nat) + iv[m].1);
            if has_null {
                if !(exists|j: int| 0 <= j < m && (#[trigger] iv[j]).0 is Nil) {
                    assert(iv[m].0 is Nil);
                }
            }
        }
    }
    proof {
        assert(iv.subrange(0, iv.len() as int) =~= iv);
    }
    if inner.is_required() && has_null {
        (RubyValue::Nil, errors)
    } else {
        proof {
            lemma_array_view(values);
        }
        (RubyValue::Array(values), errors)
    }
}

/// What executing a field asks for: the call of its resolver method, with
/// keyword arguments where the resolver takes any, or nothing more where
/// its arguments did not coerce.
#[derive(Debug)]
pub enum FieldPlan {
    Resolve { method: String, kwargs: Option<Vec<(String, RubyValue)>> },
    Failed { errors: Vec<ExecutionError> },
}

pub enum PlanView {
    Resolve { method: Seq<char>, kwargs: Option<VariablesView> },
    Failed { errors: Seq<ExecutionErrorKind> },
}

impl View for FieldPlan {
    type V = PlanView;

    open spec fn view(&self) -> PlanView {
        match self {
            FieldPlan::Resolve { method, kwargs } => PlanView::Resolve {
                method: method@,
                kwargs: match kwargs {
                    Some(k) => Some(vars_view(k@)),
                    None => None,
                },
            },
            FieldPlan::Failed { errors } => PlanView::Failed { errors: exec_errors_view(errors@) },
        }
    }
}

/// The field definition that a selected field names on the object type.
pub open spec fn field_definition_of(s: SchemaDefinition, o: int, name: Seq<char>) -> FieldDefinition {
    s.objects@[o].field_definitions@[field_index_from(s.objects@[o].field_definitions@, name, 0)->Some_0]
}

/// Every field of every object type has arguments whose types name
/// definitions of the schema.
pub open spec fn field_arguments_wf(s: SchemaDefinition) -> bool {
    forall|o: int, f: int|
        0 <= o < s.objects@.len() && 0 <= f < s.objects@[o].field_definitions@.len() ==> arguments_wf(
            s.input,
            #[trigger] s.objects@[o].field_definitions@[f],
        )
}

/// How a field is executed: a resolver without keyword arguments is
/// called without them; otherwise the field's arguments are coerced into
/// them, and errors in them leave the resolver uncalled.
pub open spec fn spec_plan_field(
    s: SchemaDefinition,
    o: int,
    field: Field,
    vars: VariablesView,
    outcomes: Seq<ScalarOutcome>,
    schema_class: RubyData,
) -> Result<PlanView, FailureView> {
    let fd = field_definition_of(s, o, field.name@);
    if fd.argument_definitions@.len() + fd.extra_resolver_args@.len() == 0 {
        Ok(PlanView::Resolve { method: fd.ruby_resolver_method_name@, kwargs: None })
    } else {
        match spec_coerce_argument_values(s.input, fd, field.arguments, vars, outcomes, schema_class) {
            Err(f) => Err(f),
            Ok(Ok(kw)) => Ok(PlanView::Resolve { method: fd.ruby_resolver_method_name@, kwargs: Some(kw) }),
            Ok(Err(errs)) => Ok(PlanView::Failed { errors: errs }),
        }
    }
}

pub open spec fn plan_view(r: Result<FieldPlan, CoercionFailure>) -> Result<PlanView, FailureView> {
    match r {
        Ok(p) => Ok(p@),
        Err(f) => Err(f@),
    }
}

/// Decides how a field selected on the object type `o` is executed.
pub fn plan_field(
    s: &SchemaDefinition,
    o: usize,
    field: &Field,
    vars: &Vec<(String, RubyValue)>,
    outcomes: &Vec<ScalarOutcome>,
    schema_class: &RubyValue,
) -> (r: Result<FieldPlan, CoercionFailure>)
    requires
        schema_wf(s.input),
        field_arguments_wf(*s),
        o < s.objects@.len(),
        field_index_from(s.objects@[o as int].field_definitions@, field.name@, 0) is Some,
        arguments_answerable(field_definition_of(*s, o as int, field.name@), field.arguments),
    ensures
        plan_view(r) == spec_plan_field(*s, o as int, *field, vars_view(vars@), outcomes@, schema_class@),
{
    let ob = &s.objects[o];
    proof {
        crate::engine::lemma_field_index_found(ob.field_definitions@, field.name@, 0);
    }
    let k = match ob.field_definition(field.name.as_str()) {
        Some(k) => k,
        None => {
            return Ok(FieldPlan::Failed { errors: Vec::new() });
        },
    };
    let fd = &ob.field_definitions[k];
    proof {
        assert(arguments_wf(s.input, s.objects@[o as int].field_definitions@[k as int]));
    }
    if fd.argument_definitions.len() == 0 && fd.extra_resolver_args.len() == 0 {
        return Ok(FieldPlan::Resolve { method: fd.ruby_resolver_method_name.clone(), kwargs: None });
    }
    match coerce_argument_values(&s.input, fd, &field.arguments, vars, outcomes, schema_class) {
        Err(f) => Err(f),
        Ok(Ok(kw)) => Ok(FieldPlan::Resolve { method: fd.ruby_resolver_method_name.clone(), kwargs: Some(kw) }),
        Ok(Err(errors)) => Ok(FieldPlan::Failed { errors }),
    }
}

/// The value and errors of a field whose resolver raised: `nil`, and the
/// error as an internal one.
pub fn resolver_error(message: String) -> (out: (RubyValue, Vec<ExecutionError>))
    ensures
        out.0@ == RubyData::Nil,
        exec_errors_view(out.1@) == seq![ExecutionErrorKind::ApplicationError(message@)],
{
    let ghost m = message@;
    let mut errors: Vec<ExecutionError> = Vec::new();
    errors.push(ExecutionError::ApplicationError(message));
    proof {
        assert(exec_errors_view(errors@) =~= seq![ExecutionErrorKind::ApplicationError(m)]);
    }
    (RubyValue::Nil, errors)
}

/// The executed fields of a selection set, each by its response key, its
/// completed value, whether its type is required, and its errors.
pub type FieldResultsView = Seq<(Seq<char>, RubyData, bool, Seq<ExecutionErrorKind>)>;

pub open spec fn field_results_view(v: Seq<(String, RubyValue, bool, Vec<ExecutionError>)>) -> FieldResultsView {
    v.map_values(|x: (String, RubyValue, bool, Vec<ExecutionError>)| (x.0@, x.1@, x.2, exec_errors_view(x.3@)))
}

/// The response map of the first `n` executed fields.
pub open spec fn response_map(results: FieldResultsView, n: nat) -> VariablesView
    decreases n,
{
    if n == 0 || n > results.len() {
        Seq::empty()
    } else {
        spec_aset(response_map(results, (n - 1) as nat), results[n - 1].0, results[n - 1].1)
    }
}

/// The errors of the first `n` executed fields, in order.
pub open spec fn field_errors(results: FieldResultsView, n: nat) -> Seq<ExecutionErrorKind>
    decreases n,
{
    if n == 0 || n > results.len() {
        Seq::empty()
    } else {
        field_errors(results, (n - 1) as nat) + results[n - 1].3
    }
}

/// A hash with string keys, built from a map of keys to values.
pub open spec fn hash_of(m: VariablesView) -> RubyData {
    RubyData::Hash(m.map_values(|e: (Seq<char>, RubyData)| (RubyData::String(e.0), e.1)))
}

/// The value and errors of a selection set from its executed fields: the
/// map of response keys to values, or `nil` where a field of a required
/// type is `nil`; with all the fields' errors either way.
pub open spec fn spec_finish_selection_set(results: FieldResultsView) -> (RubyData, Seq<ExecutionErrorKind>) {
    let errors = field_errors(results, results.len());
    if exists|k: int| 0 <= k < results.len() && (#[trigger] results[k]).2 && results[k].1 is Nil {
        (RubyData::Nil, errors)
    } else {
        (hash_of(response_map(results, results.len())), errors)
    }
}

/// Makes up the value of a selection set from its executed fields.
pub fn finish_selection_set(results: Vec<(String, RubyValue, bool, Vec<ExecutionError>)>) -> (out: (
    RubyValue,
    Vec<ExecutionError>,
))
    ensures
        (out.0@, exec_errors_view(out.1@)) == spec_finish_selection_set(field_results_view(results@)),
{
    let ghost rv = field_results_view(results@);
    let mut results = results;
    let mut rev: Vec<(String, RubyValue, bool, Vec<ExecutionError>)> = Vec::new();
    while results.len() > 0
        invariant
            field_results_view(results@) + field_results_view(rev@).reverse() == rv,
        decreases results.len(),
    {
        let ghost bi = results@;
        let ghost br = rev@;
        let x = results.pop().unwrap();
        let ghost xv = (x.0@, x.1@, x.2, exec_errors_view(x.3@));
        rev.push(x);
        proof {
            assert(field_results_view(bi) =~= field_results_view(results@).push(xv));
            assert(field_results_view(rev@) =~= field_results_view(br).push(xv));
            assert(field_results_view(rev@).reverse() =~= seq![xv] + field_results_view(br).reverse());
            assert(field_results_view(results@) + field_results_view(rev@).reverse() =~= field_results_view(bi)
                + field_results_view(br).reverse());
        }
    }
    proof {
        assert(field_results_view(results@) =~= Seq::<(Seq<char>, RubyData, bool, Seq<ExecutionErrorKind>)>::empty());
        assert(field_results_view(rev@).reverse() =~= rv);
    }
    let ghost vv = field_results_view(rev@);
    let mut map: Vec<(String, RubyValue)> = Vec::new();
    let mut errors: Vec<ExecutionError> = Vec::new();
    let mut has_null_for_required = false;
    proof {
        assert(vars_view(map@) =~= Seq::<(Seq<char>, RubyData)>::empty());
        assert(exec_errors_view(errors@) =~= Seq::<ExecutionErrorKind>::empty());
    }
    while rev.len() > 0
        invariant
            rev@.len() <= vv.len(),
            field_results_view(rev@) == vv.subrange(0, rev@.len() as int),
            vv.reverse() == rv,
            vars_view(map@) == response_map(rv, (vv.len() - rev@.len()) as nat),
            exec_errors_view(errors@) == field_errors(rv, (vv.len() - rev@.len()) as nat),
            has_null_for_required == exists|k: int|
                0 <= k < vv.len() - rev@.len() && (#[trigger] rv[k]).2 && rv[k].1 is Nil,
        decreases rev@.len(),
    {
        let ghost k = rev@.len();
        let ghost br = rev@;
        let (key, value, required, mut es) = rev.pop().unwrap();
        let ghost m = (vv.len() - k) as int;
        proof {
            assert(field_results_view(br)[k - 1] == (key@, value@, required, exec_errors_view(es@)));
            assert(vv.subrange(0, k as int)[k - 1] == vv[k - 1]);
            assert(rv[m] == vv[k - 1]);
            assert(field_results_view(rev@) =~= vv.subrange(0, rev@.len() as int));
        }
        if required {
            if let RubyValue::Nil = value {
                has_null_for_required = true;
            }
        }
        let ghost be = exec_errors_view(errors@);
        let ghost esv = exec_errors_view(es@);
        aset(&mut map, key, value);
        errors.append(&mut es);
        proof {
            assert(exec_errors_view(errors@) =~= be + esv);
            if has_null_for_required {
                if !(exists|j: int| 0 <= j < m && (#[trigger] rv[j]).2 && rv[j].1 is Nil) {
                    assert(rv[m].2 && rv[m].1 is Nil);
                }
            }
        }
    }
    if has_null_for_required {
        (RubyValue::Nil, errors)
    } else {
        let ghost mv = vars_view(map@);
        let mut entries: Vec<(RubyValue, RubyValue)> = Vec::new();
        let mut i: usize = 0;
        let mut map = map;
        let mut back: Vec<(String, RubyValue)> = Vec::new();
        while map.len() > 0
            invariant
                vars_view(map@) + vars_view(back@).reverse() == mv,
            decreases map.len(),
        {
            let ghost bm = map@;
            let ghost bb = back@;
            let x = map.pop().unwrap();
            let ghost xv = (x.0@, x.1@);
            back.push(x);
            proof {
                assert(vars_view(bm) =~= vars_view(map@).push(xv));
                assert(vars_view(back@) =~= vars_view(bb).push(xv));
                assert(vars_view(back@).reverse() =~= seq![xv] + vars_view(bb).reverse());
                assert(vars_view(map@) + vars_view(back@).reverse() =~= vars_view(bm) + vars_view(bb).reverse());
            }
        }
        proof {
            assert(vars_view(map@) =~= Seq::<(Seq<char>, RubyData)>::empty());
            assert(vars_view(back@).reverse() =~= mv);
        }
        let ghost bv = vars_view(back@);
        while back.len() > 0
            invariant
                back@.len() <= bv.len(),
                vars_view(back@) == bv.subrange(0, back@.len() as int),
                bv.reverse() == mv,
                entries_view(entries@) == mv.subrange(0, (bv.len() - back@.len()) as int).map_values(
                    |e: (Seq<char>, RubyData)| (RubyData::String(e.0), e.1),
                ),
            decreases back@.len(),
        {
            let ghost k = back@.len();
            let ghost bb = back@;
            let (key, value) = back.pop().unwrap();
            let ghost m = (bv.len() - k) as int;
            proof {
                assert(vars_view(bb)[k - 1] == (key@, value@));
                assert(bv.subrange(0, k as int)[k - 1] == bv[k - 1]);
                assert(mv[m] == bv[k - 1]);
                assert(vars_view(back@) =~= bv.subrange(0, back@.len() as int));
            }
            let ghost be = entries_view(entries@);
            let ghost kv = key@;
            let ghost valv = value@;
            entries.push((RubyValue::String(key), value));
            proof {
                assert(entries_view(entries@) =~= be.push((RubyData::String(kv), valv)));
                assert(mv.subrange(0, m + 1) =~= mv.subrange(0, m).push(mv[m]));
                assert(mv.subrange(0, m + 1).map_values(|e: (Seq<char>, RubyData)| (RubyData::String(e.0), e.1))
                    =~= mv.subrange(0, m).map_values(|e: (Seq<char>, RubyData)| (RubyData::String(e.0), e.1)).push(
                    (RubyData::String(mv[m].0), mv[m].1),
                ));
            }
        }
        proof {
            assert(mv.subrange(0, mv.len() as int) =~= mv);
        }
        let r = RubyValue::Hash(entries);
        proof {
            lemma_value_parts(r);
        }
        (r, errors)
    }
}

} // verus!
