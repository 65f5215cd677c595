//! Coercion of Ruby values to input types: the values of variables, of
//! input objects given from Ruby, and of defaults.
use vstd::prelude::*;
use crate::inner_value::{
    InnerValue, Wrapped, add_inner, spec_coerce_wrapped, spec_wrapped_inner, wrapped_inner, wrapped_view,
};

use crate::coercion_error::{CoercionError, CoercionErrorView, clone_strings, errors_view, strings_view};
use crate::coercion_path::{push_index, push_key};
use crate::input_schema::{
    BaseInputType, CoercionMethodSignature, EnumTypeDefinition, InputObjectTypeDefinition, InputSchema,
    InputType, InputValueDefinition, schema_wf, spec_display_name, spec_is_required, type_depth, type_wf,
};
use crate::ruby_value::{
    RubyData, RubyValue, args_view, class_desc, entries_view, lemma_array_view, lemma_input_object_view,
    lemma_value_parts, public_name, spec_class_desc, values_view, class_name, spec_class_name,
};
use crate::scalar_coercion::{
    error_at, no_implicit_conversion, one_error, scalar_result_view, spec_coerce_builtin,
};
use crate::text::{cat2, cat3, cat4, spec_decimal};

verus! {

/// What a custom scalar's `coerce_input` did when it was called.
#[derive(Debug)]
pub enum ScalarCallEvent {
    /// It returned `value`; where `value` is a `Bluejay::Result`, `result`
    /// holds its `ok` or `err` payload.
    Returned { value: RubyValue, result: Option<Result<RubyValue, RubyValue>> },
    /// It raised an exception with this message; `declared` tells whether
    /// the exception is of the class that the scalar declares.
    Raised { declared: bool, message: String },
}

pub enum ScalarEventView {
    Returned { value: RubyData, result: Option<Result<RubyData, RubyData>> },
    Raised { declared: bool, message: Seq<char> },
}

impl View for ScalarCallEvent {
    type V = ScalarEventView;

    open spec fn view(&self) -> ScalarEventView {
        match self {
            ScalarCallEvent::Returned { value, result } => ScalarEventView::Returned {
                value: value@,
                result: match result {
                    None => None,
                    Some(Ok(v)) => Some(Ok(v@)),
                    Some(Err(e)) => Some(Err(e@)),
                },
            },
            ScalarCallEvent::Raised { declared, message } => ScalarEventView::Raised {
                declared: *declared,
                message: message@,
            },
        }
    }
}

/// The outcome of the call of a custom scalar's coercion for the value at
/// `path`.
#[derive(Debug)]
pub struct ScalarOutcome {
    pub path: Vec<String>,
    pub event: ScalarCallEvent,
}

/// Why coercion stopped without a result.
#[derive(Debug)]
pub enum CoercionFailure {
    /// The coercion of a custom scalar is needed for the value at `path`:
    /// the caller calls it and coerces again with its outcome.
    NeedCustomScalar { scalar: usize, path: Vec<String>, value: RubyValue },
    /// A Ruby exception with this message ends the coercion.
    RubyError(String),
}

pub enum FailureView {
    NeedCustomScalar { scalar: usize, path: Seq<Seq<char>>, value: RubyData },
    RubyError(Seq<char>),
}

impl View for CoercionFailure {
    type V = FailureView;

    open spec fn view(&self) -> FailureView {
        match self {
            CoercionFailure::NeedCustomScalar { scalar, path, value } => FailureView::NeedCustomScalar {
                scalar: *scalar,
                path: strings_view(path@),
                value: value@,
            },
            CoercionFailure::RubyError(m) => FailureView::RubyError(m@),
        }
    }
}

/// The result of a coercion: a Ruby failure, or the coerced value or the
/// errors that explain why there is none.
pub type CoercedView = Result<Result<RubyData, Seq<CoercionErrorView>>, FailureView>;

pub type Coerced = Result<Result<RubyValue, Vec<CoercionError>>, CoercionFailure>;

pub open spec fn coerced_view(r: Coerced) -> CoercedView {
    match r {
        Ok(Ok(v)) => Ok(Ok(v@)),
        Ok(Err(e)) => Ok(Err(errors_view(e@))),
        Err(f) => Err(f@),
    }
}

/// The first outcome, from index `k` on, whose path is `path`.
pub open spec fn outcome_index_from(outcomes: Seq<ScalarOutcome>, path: Seq<Seq<char>>, k: int) -> Option<int>
    decreases outcomes.len() - k,
{
    if k < 0 || k >= outcomes.len() {
        None
    } else if strings_view(outcomes[k].path@) == path {
        Some(k)
    } else {
        outcome_index_from(outcomes, path, k + 1)
    }
}

pub open spec fn outcome_index(outcomes: Seq<ScalarOutcome>, path: Seq<Seq<char>>) -> Option<int> {
    outcome_index_from(outcomes, path, 0)
}

pub open spec fn null_message() -> Seq<char> {
    "Got null when a non-null value was expected"@
}

/// What Ruby reports when a value does not convert to `target`.
pub open spec fn type_error_message(v: RubyData, target: Seq<char>) -> Seq<char> {
    "no implicit conversion of "@ + spec_class_desc(v) + " into "@ + target
}

/// How an error converts to a string where a value that is not a
/// `Bluejay::Result` was returned in place of one.
pub open spec fn not_a_result_message(v: RubyData) -> Seq<char> {
    "TypeError: no implicit conversion of "@ + spec_class_name(v) + " into Bluejay::Result"@
}

/// The result of a custom scalar's coercion, given what its call did.
pub open spec fn spec_scalar_outcome(
    sig: CoercionMethodSignature,
    ev: ScalarEventView,
    path: Seq<Seq<char>>,
) -> CoercedView {
    match ev {
        ScalarEventView::Returned { value, result } => match sig {
            CoercionMethodSignature::Result => match result {
                Some(Ok(v)) => Ok(Ok(v)),
                Some(Err(e)) => match e {
                    RubyData::String(m) => Ok(Err(one_error(m, path))),
                    _ => Err(FailureView::RubyError(type_error_message(e, "String"@))),
                },
                None => Err(FailureView::RubyError(not_a_result_message(value))),
            },
            CoercionMethodSignature::Exception => Ok(Ok(value)),
        },
        ScalarEventView::Raised { declared, message } => if sig == CoercionMethodSignature::Exception
            && declared {
            Ok(Err(one_error(message, path)))
        } else {
            Err(FailureView::RubyError(message))
        },
    }
}

/// The coercion of a value to a custom scalar: the outcome of its call for
/// this path, or the request for that call.
pub open spec fn spec_coerce_custom_scalar(
    schema: InputSchema,
    idx: usize,
    v: RubyData,
    path: Seq<Seq<char>>,
    outcomes: Seq<ScalarOutcome>,
) -> CoercedView {
    match outcome_index(outcomes, path) {
        None => Err(FailureView::NeedCustomScalar { scalar: idx, path, value: v }),
        Some(k) => spec_scalar_outcome(
            schema.custom_scalars@[idx as int].input_coercion_method_signature,
            outcomes[k].event@,
            path,
        ),
    }
}

/// Whether an enum type has a value with this name.
pub open spec fn enum_has_value(e: EnumTypeDefinition, name: Seq<char>) -> bool {
    exists|k: int| 0 <= k < e.enum_value_definitions@.len() && #[trigger] e.enum_value_definitions@[k].name@ == name
}

pub open spec fn no_member_message(name: Seq<char>, enum_name: Seq<char>) -> Seq<char> {
    "No member `"@ + name + "` on "@ + enum_name
}

/// The coercion of a Ruby value to an enum type: a string naming one of its
/// values.
pub open spec fn spec_coerce_enum(
    schema: InputSchema,
    idx: usize,
    v: RubyData,
    path: Seq<Seq<char>>,
) -> Result<RubyData, Seq<CoercionErrorView>> {
    let e = schema.enums@[idx as int];
    match v {
        RubyData::String(s) => if enum_has_value(e, s) {
            Ok(v)
        } else {
            Err(one_error(no_member_message(s, e.name@), path))
        },
        _ => Err(one_error(no_implicit_conversion(v, e.name@), path)),
    }
}

/// The coercion of `nil`: an error where the type is required.
pub open spec fn spec_coerce_nil(ty: InputType, path: Seq<Seq<char>>) -> CoercedView {
    if spec_is_required(ty) {
        Ok(Err(one_error(null_message(), path)))
    } else {
        Ok(Ok(RubyData::Nil))
    }
}

/// The index of the first entry of a hash whose key is the string `name`.
pub open spec fn hash_index_from(entries: Seq<(RubyData, RubyData)>, name: Seq<char>, k: int) -> Option<int>
    decreases entries.len() - k,
{
    if k < 0 || k >= entries.len() {
        None
    } else if entries[k].0 == RubyData::String(name) {
        Some(k)
    } else {
        hash_index_from(entries, name, k + 1)
    }
}

pub open spec fn hash_index(entries: Seq<(RubyData, RubyData)>, name: Seq<char>) -> Option<int> {
    hash_index_from(entries, name, 0)
}

/// Whether an input object type has a field with this name.
pub open spec fn has_field_named(o: InputObjectTypeDefinition, name: Seq<char>) -> bool {
    exists|j: int| 0 <= j < o.input_field_definitions@.len() && #[trigger] o.input_field_definitions@[j].name@ == name
}

pub open spec fn no_field_message(key: Seq<char>, object_name: Seq<char>) -> Seq<char> {
    "No field named `"@ + key + "` on "@ + object_name
}

pub open spec fn required_field_message(field: Seq<char>) -> Seq<char> {
    "No value for required field "@ + field
}

/// The errors for the first `n` keys of a hash that name no field, or the
/// failure of a key that is not a string.
pub open spec fn spec_unknown_keys(
    o: InputObjectTypeDefinition,
    entries: Seq<(RubyData, RubyData)>,
    path: Seq<Seq<char>>,
    n: nat,
) -> Result<Seq<CoercionErrorView>, FailureView>
    decreases n,
{
    if n == 0 {
        Ok(Seq::empty())
    } else {
        match spec_unknown_keys(o, entries, path, (n - 1) as nat) {
            Err(f) => Err(f),
            Ok(errs) => {
                let key = entries[n - 1].0;
                match key {
                    RubyData::String(s) => if has_field_named(o, s) {
                        Ok(errs)
                    } else {
                        Ok(errs + one_error(no_field_message(s, o.name@), path))
                    },
                    _ => Err(FailureView::RubyError(type_error_message(key, "String"@))),
                }
            },
        }
    }
}

/// The state of a coercion that goes through parts in turn: the failure
/// that ended it, or what has been coerced and the errors found.
pub type ListState = Result<(Seq<RubyData>, Seq<CoercionErrorView>), FailureView>;

pub type ArgsState = Result<(Seq<(Seq<char>, RubyData)>, Seq<CoercionErrorView>), FailureView>;

/// A value's coercion, taken into the list of values coerced so far.
pub open spec fn list_step(state: ListState, r: CoercedView) -> ListState {
    match state {
        Err(f) => Err(f),
        Ok((vals, errs)) => match r {
            Err(f) => Err(f),
            Ok(Ok(x)) => Ok((vals.push(x), errs)),
            Ok(Err(es)) => Ok((vals, errs + es)),
        },
    }
}

/// A field's coercion, taken into the keyword arguments coerced so far.
pub open spec fn args_step(state: ArgsState, key: Seq<char>, r: CoercedView) -> ArgsState {
    match state {
        Err(f) => Err(f),
        Ok((args, errs)) => match r {
            Err(f) => Err(f),
            Ok(Ok(x)) => Ok((args.push((key, x)), errs)),
            Ok(Err(es)) => Ok((args, errs + es)),
        },
    }
}

pub open spec fn list_finish(state: ListState) -> CoercedView {
    match state {
        Err(f) => Err(f),
        Ok((vals, errs)) => if errs.len() == 0 {
            Ok(Ok(RubyData::Array(vals)))
        } else {
            Ok(Err(errs))
        },
    }
}

/// Wraps a coerced value in a list of one element.
pub open spec fn wrap_single(r: CoercedView) -> CoercedView {
    match r {
        Ok(Ok(x)) => Ok(Ok(RubyData::Array(seq![x]))),
        _ => r,
    }
}

/// The coercion of a Ruby value to an input type.
///
/// `implicit_list` tells whether a value that is not an array may stand for
/// a list of one element; `wrapped` whether that holds at every depth (as
/// for the fields of input objects and for defaults) or only at the top.
pub open spec fn spec_coerce(
    schema: InputSchema,
    ty: InputType,
    v: RubyData,
    path: Seq<Seq<char>>,
    implicit_list: bool,
    wrapped: bool,
    outcomes: Seq<ScalarOutcome>,
) -> CoercedView
    decreases v, type_depth(ty) + 1, 0nat,
{
    if v is Nil {
        spec_coerce_nil(ty, path)
    } else {
        match ty {
            InputType::Base(base, _) => match base {
                BaseInputType::BuiltinScalar(s) => Ok(spec_coerce_builtin(s, v, path)),
                BaseInputType::Enum(idx) => Ok(spec_coerce_enum(schema, idx, v, path)),
                BaseInputType::CustomScalar(idx) => spec_coerce_custom_scalar(schema, idx, v, path, outcomes),
                BaseInputType::InputObject(idx) => spec_coerce_input_object(schema, idx, v, path, outcomes),
            },
            InputType::List(inner, _) => match v {
                RubyData::Array(items) => list_finish(
                    spec_coerce_items(schema, *inner, v, path, wrapped, outcomes, items.len()),
                ),
                _ => if implicit_list {
                    wrap_single(spec_coerce(schema, *inner, v, path, true, wrapped, outcomes))
                } else {
                    Ok(Err(one_error(no_implicit_conversion(v, spec_display_name(schema, ty)), path)))
                },
            },
        }
    }
}

/// The coercion of the first `n` elements of the array `v` to `inner`.
pub open spec fn spec_coerce_items(
    schema: InputSchema,
    inner: InputType,
    v: RubyData,
    path: Seq<Seq<char>>,
    wrapped: bool,
    outcomes: Seq<ScalarOutcome>,
    n: nat,
) -> ListState
    decreases v, 0nat, n,
{
    match v {
        RubyData::Array(items) => if n == 0 || n > items.len() {
            Ok((Seq::empty(), Seq::empty()))
        } else {
            list_step(
                spec_coerce_items(schema, inner, v, path, wrapped, outcomes, (n - 1) as nat),
                spec_coerce(
                    schema,
                    inner,
                    items[n - 1],
                    path.push(spec_decimal((n - 1) as nat)),
                    wrapped,
                    wrapped,
                    outcomes,
                ),
            )
        },
        _ => Ok((Seq::empty(), Seq::empty())),
    }
}

/// The coercion of one field of an input object, given the state so far.
pub open spec fn spec_field_step(
    schema: InputSchema,
    ivd: InputValueDefinition,
    state: ArgsState,
    found: Option<RubyData>,
    r: CoercedView,
    path: Seq<Seq<char>>,
) -> ArgsState {
    let required = ivd.default_value is None && spec_is_required(ivd.input_type);
    if required && found is None {
        match state {
            Err(f) => Err(f),
            Ok((args, errs)) => Ok((args, errs + one_error(required_field_message(ivd.name@), path))),
        }
    } else {
        match (ivd.default_value, found) {
            (Some(d), None) => args_step(state, ivd.ruby_name@, Ok(Ok(d@))),
            _ => args_step(state, ivd.ruby_name@, r),
        }
    }
}

/// The coercion of the first `n` fields of the input object type `idx`
/// from the hash `v`.
pub open spec fn spec_coerce_fields(
    schema: InputSchema,
    idx: usize,
    v: RubyData,
    path: Seq<Seq<char>>,
    outcomes: Seq<ScalarOutcome>,
    n: nat,
) -> ArgsState
    decreases v, 0nat, n,
{
    let fields = schema.input_objects@[idx as int].input_field_definitions@;
    match v {
        RubyData::Hash(entries) => if n == 0 || n > fields.len() {
            Ok((Seq::empty(), Seq::empty()))
        } else {
            let ivd = fields[n - 1];
            let state = spec_coerce_fields(schema, idx, v, path, outcomes, (n - 1) as nat);
            let inner_path = path.push(ivd.name@);
            match hash_index(entries, ivd.name@) {
                Some(k) => if 0 <= k < entries.len() {
                    spec_field_step(
                        schema,
                        ivd,
                        state,
                        Some(entries[k].1),
                        spec_coerce(schema, ivd.input_type, entries[k].1, inner_path, true, true, outcomes),
                        path,
                    )
                } else {
                    state
                },
                None => spec_field_step(
                    schema,
                    ivd,
                    state,
                    None,
                    spec_coerce_nil(ivd.input_type, inner_path),
                    path,
                ),
            }
        },
        _ => Ok((Seq::empty(), Seq::empty())),
    }
}

/// The coercion of a Ruby value to the input object type `idx`: a hash whose
/// keys name fields, which becomes an instance of the type's Ruby class.
pub open spec fn spec_coerce_input_object(
    schema: InputSchema,
    idx: usize,
    v: RubyData,
    path: Seq<Seq<char>>,
    outcomes: Seq<ScalarOutcome>,
) -> CoercedView
    decreases v, 0nat, schema.input_objects@[idx as int].input_field_definitions@.len() + 1,
{
    let o = schema.input_objects@[idx as int];
    match v {
        RubyData::Hash(entries) => match spec_coerce_fields(
            schema,
            idx,
            v,
            path,
            outcomes,
            o.input_field_definitions@.len(),
        ) {
            Err(f) => Err(f),
            Ok((args, errs)) => match spec_unknown_keys(o, entries, path, entries.len()) {
                Err(f) => Err(f),
                Ok(errs2) => if errs.len() + errs2.len() == 0 {
                    Ok(Ok(RubyData::InputObject { class_name: o.ruby_class_name@, args }))
                } else {
                    Ok(Err(errs + errs2))
                },
            },
        },
        _ => Ok(Err(one_error(no_implicit_conversion(v, o.name@), path))),
    }
}

} // verus!

verus! {

pub(crate) proof fn lemma_errors_view_concat(a: Seq<CoercionError>, b: Seq<CoercionError>)
    ensures
        errors_view(a + b) == errors_view(a) + errors_view(b),
{
    assert(errors_view(a + b) =~= errors_view(a) + errors_view(b));
}

proof fn lemma_items_sticky(
    schema: InputSchema,
    inner: InputType,
    v: RubyData,
    path: Seq<Seq<char>>,
    wrapped: bool,
    outcomes: Seq<ScalarOutcome>,
    i: nat,
    n: nat,
)
    requires
        v is Array,
        i <= n <= v->Array_0.len(),
        spec_coerce_items(schema, inner, v, path, wrapped, outcomes, i) is Err,
    ensures
        spec_coerce_items(schema, inner, v, path, wrapped, outcomes, n) == spec_coerce_items(
            schema,
            inner,
            v,
            path,
            wrapped,
            outcomes,
            i,
        ),
    decreases n - i,
{
    if n > i {
        lemma_items_sticky(schema, inner, v, path, wrapped, outcomes, i, (n - 1) as nat);
    }
}

proof fn lemma_fields_sticky(
    schema: InputSchema,
    idx: usize,
    v: RubyData,
    path: Seq<Seq<char>>,
    outcomes: Seq<ScalarOutcome>,
    i: nat,
    n: nat,
)
    requires
        v is Hash,
        i <= n <= schema.input_objects@[idx as int].input_field_definitions@.len(),
        spec_coerce_fields(schema, idx, v, path, outcomes, i) is Err,
    ensures
        spec_coerce_fields(schema, idx, v, path, outcomes, n) == spec_coerce_fields(
            schema,
            idx,
            v,
            path,
            outcomes,
            i,
        ),
    decreases n - i,
{
    if n > i {
        lemma_fields_sticky(schema, idx, v, path, outcomes, i, (n - 1) as nat);
    }
}

proof fn lemma_unknown_keys_sticky(
    o: InputObjectTypeDefinition,
    entries: Seq<(RubyData, RubyData)>,
    path: Seq<Seq<char>>,
    i: nat,
    n: nat,
)
    requires
        i <= n,
        spec_unknown_keys(o, entries, path, i) is Err,
    ensures
        spec_unknown_keys(o, entries, path, n) == spec_unknown_keys(o, entries, path, i),
    decreases n - i,
{
    if n > i {
        lemma_unknown_keys_sticky(o, entries, path, i, (n - 1) as nat);
    }
}

/// Whether two lists of strings hold the same texts.
pub fn strings_equal(a: &Vec<String>, b: &Vec<String>) -> (r: bool)
    ensures
        r == (strings_view(a@) == strings_view(b@)),
{
    if a.len() != b.len() {
        proof {
            if strings_view(a@) == strings_view(b@) {
                assert(strings_view(a@).len() == a@.len());
            }
        }
        return false;
    }
    let mut i: usize = 0;
    while i < a.len()
        invariant
            i <= a.len(),
            a.len() == b.len(),
            forall|j: int| 0 <= j < i ==> a@[j]@ == b@[j]@,
        decreases a.len() - i,
    {
        if a[i] != b[i] {
            proof {
                assert(strings_view(a@)[i as int] != strings_view(b@)[i as int]);
            }
            return false;
        }
        i = i + 1;
    }
    proof {
        assert(strings_view(a@) =~= strings_view(b@));
    }
    true
}

/// The index of the first outcome recorded for this path.
pub fn find_outcome(outcomes: &Vec<ScalarOutcome>, p: &Vec<String>) -> (r: Option<usize>)
    ensures
        match r {
            None => outcome_index(outcomes@, strings_view(p@)) is None,
            Some(k) => k < outcomes@.len() && outcome_index(outcomes@, strings_view(p@)) == Some(k as int),
        },
{
    let ghost pv = strings_view(p@);
    let mut k: usize = 0;
    while k < outcomes.len()
        invariant
            k <= outcomes.len(),
            pv == strings_view(p@),
            outcome_index_from(outcomes@, pv, 0) == outcome_index_from(outcomes@, pv, k as int),
        decreases outcomes.len() - k,
    {
        if strings_equal(&outcomes[k].path, p) {
            return Some(k);
        }
        k = k + 1;
    }
    None
}

/// What Ruby reports when a value does not convert to `target`.
fn type_error(value: &RubyValue, target: &str) -> (r: String)
    ensures
        r@ == type_error_message(value@, target@),
{
    cat4("no implicit conversion of ", class_desc(value), " into ", target)
}

/// The message of the error for a value that is not a `Bluejay::Result`.
pub fn not_a_result(value: &RubyValue) -> (r: String)
    ensures
        r@ == not_a_result_message(value@),
{
    cat3("TypeError: no implicit conversion of ", class_name(value), " into Bluejay::Result")
}

/// The result of a custom scalar's coercion, given what its call did.
pub fn scalar_outcome(sig: CoercionMethodSignature, ev: &ScalarCallEvent, path: &Vec<String>) -> (r: Coerced)
    ensures
        coerced_view(r) == spec_scalar_outcome(sig, ev@, strings_view(path@)),
{
    match ev {
        ScalarCallEvent::Returned { value, result } => match sig {
            CoercionMethodSignature::Result => match result {
                Some(Ok(v)) => Ok(Ok(v.duplicate())),
                Some(Err(e)) => match e {
                    RubyValue::String(m) => Ok(Err(error_at(m.clone(), path))),
                    _ => Err(CoercionFailure::RubyError(type_error(e, "String"))),
                },
                None => Err(CoercionFailure::RubyError(not_a_result(value))),
            },
            CoercionMethodSignature::Exception => Ok(Ok(value.duplicate())),
        },
        ScalarCallEvent::Raised { declared, message } => {
            let is_exception = match sig {
                CoercionMethodSignature::Exception => true,
                CoercionMethodSignature::Result => false,
            };
            if is_exception && *declared {
                Ok(Err(error_at(message.clone(), path)))
            } else {
                Err(CoercionFailure::RubyError(message.clone()))
            }
        },
    }
}

/// Coerces a value to a custom scalar from the outcome of its call for
/// this path, or asks for that call.
pub fn coerce_custom_scalar(
    schema: &InputSchema,
    idx: usize,
    value: &RubyValue,
    path: &Vec<String>,
    outcomes: &Vec<ScalarOutcome>,
) -> (r: Coerced)
    requires
        idx < schema.custom_scalars@.len(),
    ensures
        coerced_view(r) == spec_coerce_custom_scalar(*schema, idx, value@, strings_view(path@), outcomes@),
{
    let p = clone_strings(path);
    proof {
        assert(strings_view(p@) =~= strings_view(path@));
    }
    match find_outcome(outcomes, &p) {
        None => Err(CoercionFailure::NeedCustomScalar { scalar: idx, path: p, value: value.duplicate() }),
        Some(k) => scalar_outcome(
            schema.custom_scalars[idx].input_coercion_method_signature,
            &outcomes[k].event,
            path,
        ),
    }
}

/// Coerces a Ruby value to the enum type `idx`.
pub fn coerce_enum(schema: &InputSchema, idx: usize, value: &RubyValue, path: &Vec<String>) -> (r: Result<
    RubyValue,
    Vec<CoercionError>,
>)
    requires
        idx < schema.enums@.len(),
    ensures
        scalar_result_view(r) == spec_coerce_enum(*schema, idx, value@, strings_view(path@)),
{
    let e = &schema.enums[idx];
    match value {
        RubyValue::String(s) => {
            let mut k: usize = 0;
            while k < e.enum_value_definitions.len()
                invariant
                    k <= e.enum_value_definitions@.len(),
                    *e == schema.enums@[idx as int],
                    value@ == RubyData::String(s@),
                    forall|j: int| 0 <= j < k ==> e.enum_value_definitions@[j].name@ != s@,
                decreases e.enum_value_definitions@.len() - k,
            {
                if e.enum_value_definitions[k].name == *s {
                    proof {
                        assert(e.enum_value_definitions@[k as int].name@ == s@);
                    }
                    return Ok(value.duplicate());
                }
                k = k + 1;
            }
            Err(error_at(cat4("No member `", s.as_str(), "` on ", e.name.as_str()), path))
        },
        _ => Err(error_at(cat4("No implicit conversion of ", public_name(value), " to ", e.name.as_str()), path)),
    }
}

/// Coerces `nil` to a type: an error where the type is required.
pub fn coerce_nil(ty: &InputType, path: &Vec<String>) -> (r: Coerced)
    ensures
        coerced_view(r) == spec_coerce_nil(*ty, strings_view(path@)),
{
    if ty.is_required() {
        Ok(Err(error_at(String::from_str("Got null when a non-null value was expected"), path)))
    } else {
        Ok(Ok(RubyValue::Nil))
    }
}

/// The index of the first entry of a hash whose key is the string `name`.
fn hash_find(entries: &Vec<(RubyValue, RubyValue)>, name: &str) -> (r: Option<usize>)
    ensures
        match r {
            None => hash_index(entries_view(entries@), name@) is None,
            Some(k) => k < entries@.len() && hash_index(entries_view(entries@), name@) == Some(k as int),
        },
{
    let ghost ev = entries_view(entries@);
    let mut k: usize = 0;
    while k < entries.len()
        invariant
            k <= entries.len(),
            ev == entries_view(entries@),
            hash_index_from(ev, name@, 0) == hash_index_from(ev, name@, k as int),
        decreases entries.len() - k,
    {
        let is_match = match &entries[k].0 {
            RubyValue::String(s) => str_eq_string(s, name),
            _ => false,
        };
        if is_match {
            return Some(k);
        }
        k = k + 1;
    }
    None
}

fn str_eq_string(s: &String, name: &str) -> (r: bool)
    ensures
        r == (s@ == name@),
{
    let n = String::from_str(name);
    *s == n
}

} // verus!

verus! {

/// Whether the input object has a field named `name`.
pub(crate) fn has_field(o: &InputObjectTypeDefinition, name: &String) -> (r: bool)
    ensures
        r == has_field_named(*o, name@),
{
    let mut j: usize = 0;
    while j < o.input_field_definitions.len()
        invariant
            j <= o.input_field_definitions@.len(),
            forall|i: int| 0 <= i < j ==> o.input_field_definitions@[i].name@ != name@,
        decreases o.input_field_definitions@.len() - j,
    {
        if o.input_field_definitions[j].name == *name {
            proof {
                assert(o.input_field_definitions@[j as int].name@ == name@);
            }
            return true;
        }
        j = j + 1;
    }
    false
}

/// The errors for the keys of a hash that name no field of the input
/// object, in the hash's order; a key that is not a string stops them
/// with Ruby's conversion error.
fn unknown_keys(o: &InputObjectTypeDefinition, entries: &Vec<(RubyValue, RubyValue)>, path: &Vec<String>) -> (r: Result<
    Vec<CoercionError>,
    CoercionFailure,
>)
    ensures
        match r {
            Ok(errs) => spec_unknown_keys(*o, entries_view(entries@), strings_view(path@), entries@.len()) == Ok::<
                Seq<CoercionErrorView>,
                FailureView,
            >(errors_view(errs@)),
            Err(f) => spec_unknown_keys(*o, entries_view(entries@), strings_view(path@), entries@.len()) == Err::<
                Seq<CoercionErrorView>,
                FailureView,
            >(f@),
        },
{
    let ghost ev = entries_view(entries@);
    let ghost pv = strings_view(path@);
    let mut errs: Vec<CoercionError> = Vec::new();
    let mut k: usize = 0;
    proof {
        assert(errors_view(errs@) =~= Seq::<CoercionErrorView>::empty());
    }
    while k < entries.len()
        invariant
            k <= entries.len(),
            ev == entries_view(entries@),
            pv == strings_view(path@),
            spec_unknown_keys(*o, ev, pv, k as nat) == Ok::<Seq<CoercionErrorView>, FailureView>(errors_view(errs@)),
        decreases entries.len() - k,
    {
        match &entries[k].0 {
            RubyValue::String(s) => {
                if !has_field(o, s) {
                    let mut e = error_at(cat4("No field named `", s.as_str(), "` on ", o.name.as_str()), path);
                    proof {
                        lemma_errors_view_concat(errs@, e@);
                    }
                    errs.append(&mut e);
                }
            },
            key => {
                let f = CoercionFailure::RubyError(type_error(key, "String"));
                proof {
                    lemma_unknown_keys_sticky(*o, ev, pv, (k + 1) as nat, entries@.len());
                }
                return Err(f);
            },
        }
        k = k + 1;
    }
    Ok(errs)
}

/// Coerces a Ruby value to an input type.
///
/// `implicit_list` tells whether a value that is not an array may stand for
/// a list of one element; `wrapped` whether that holds at every depth, as
/// for the fields of input objects, or only at the top.  Where a custom
/// scalar's coercion is needed and `outcomes` holds none for its path, the
/// result asks for it.
pub fn coerce_ruby<'a>(
    schema: &'a InputSchema,
    ty: &'a InputType,
    value: &RubyValue,
    path: &Vec<String>,
    implicit_list: bool,
    wrapped: bool,
    outcomes: &Vec<ScalarOutcome>,
) -> (r: Coerced)
    requires
        schema_wf(*schema),
        type_wf(*schema, *ty),
    ensures
        coerced_view(r) == spec_coerce(
            *schema,
            *ty,
            value@,
            strings_view(path@),
            implicit_list,
            wrapped,
            outcomes@,
        ),
    decreases value, type_depth(*ty) + 1,
{
    if let RubyValue::Nil = value {
        return coerce_nil(ty, path);
    }
    match ty {
        InputType::Base(base, _) => match base {
            BaseInputType::BuiltinScalar(s) => match s.coerce_ruby_const_value(value, path) {
                Ok(v) => Ok(Ok(v)),
                Err(e) => Ok(Err(e)),
            },
            BaseInputType::Enum(idx) => match coerce_enum(schema, *idx, value, path) {
                Ok(v) => Ok(Ok(v)),
                Err(e) => Ok(Err(e)),
            },
            BaseInputType::CustomScalar(idx) => coerce_custom_scalar(schema, *idx, value, path, outcomes),
            BaseInputType::InputObject(idx) => coerce_input_object(schema, *idx, value, path, outcomes),
        },
        InputType::List(inner, _) => match value {
            RubyValue::Array(items) => {
                let ghost pv = strings_view(path@);
                proof {
                    lemma_value_parts(*value);
                }
                let mut vals: Vec<RubyValue> = Vec::new();
                let mut errs: Vec<CoercionError> = Vec::new();
                let mut i: usize = 0;
                proof {
                    assert(errors_view(errs@) =~= Seq::<CoercionErrorView>::empty());
                    assert(values_view(vals@) =~= Seq::<RubyData>::empty());
                }
                while i < items.len()
                    invariant
                        i <= items.len(),
                        pv == strings_view(path@),
                        schema_wf(*schema),
                        type_wf(*schema, **inner),
                        *ty == InputType::List(*inner, spec_is_required(*ty)),
                        value@ == RubyData::Array(values_view(items@)),
                        *value == RubyValue::Array(*items),
                        spec_coerce_items(*schema, **inner, value@, pv, wrapped, outcomes@, i as nat) == Ok::<
                            (Seq<RubyData>, Seq<CoercionErrorView>),
                            FailureView,
                        >((values_view(vals@), errors_view(errs@))),
                    decreases items.len() - i,
                {
                    let item_path = push_index(path, i);
                    let r = coerce_ruby(schema, inner, &items[i], &item_path, wrapped, wrapped, outcomes);
                    proof {
                        assert(values_view(items@)[i as int] == items@[i as int]@);
                    }
                    match r {
                        Err(f) => {
                            proof {
                                lemma_items_sticky(*schema, **inner, value@, pv, wrapped, outcomes@, (i + 1) as nat, items@.len());
                            }
                            return Err(f);
                        },
                        Ok(Ok(x)) => {
                            proof {
                                assert(values_view(vals@.push(x)) =~= values_view(vals@).push(x@));
                            }
                            vals.push(x);
                        },
                        Ok(Err(mut es)) => {
                            proof {
                                lemma_errors_view_concat(errs@, es@);
                            }
                            errs.append(&mut es);
                        },
                    }
                    i = i + 1;
                }
                if errs.len() == 0 {
                    proof {
                        lemma_array_view(vals);
                    }
                    Ok(Ok(RubyValue::Array(vals)))
                } else {
                    Ok(Err(errs))
                }
            },
            _ => {
                if implicit_list {
                    let r = coerce_ruby(schema, inner, value, path, true, wrapped, outcomes);
                    match r {
                        Ok(Ok(x)) => {
                            let mut v: Vec<RubyValue> = Vec::new();
                            v.push(x);
                            proof {
                                lemma_array_view(v);
                                assert(values_view(v@) =~= seq![x@]);
                            }
                            Ok(Ok(RubyValue::Array(v)))
                        },
                        other => other,
                    }
                } else {
                    let name = schema.display_name(ty);
                    Ok(Err(error_at(cat4("No implicit conversion of ", public_name(value), " to ", name.as_str()), path)))
                }
            },
        },
    }
}

/// Coerces a Ruby value to the input object type `idx`: a hash whose keys
/// name fields becomes an instance of the type's Ruby class.
pub fn coerce_input_object<'a>(
    schema: &'a InputSchema,
    idx: usize,
    value: &RubyValue,
    path: &Vec<String>,
    outcomes: &Vec<ScalarOutcome>,
) -> (r: Coerced)
    requires
        schema_wf(*schema),
        idx < schema.input_objects@.len(),
    ensures
        coerced_view(r) == spec_coerce_input_object(*schema, idx, value@, strings_view(path@), outcomes@),
    decreases value, 0nat,
{
    let o = &schema.input_objects[idx];
    match value {
        RubyValue::Hash(entries) => {
            let ghost pv = strings_view(path@);
            proof {
                lemma_value_parts(*value);
            }
            let mut args: Vec<(String, RubyValue)> = Vec::new();
            let mut errs: Vec<CoercionError> = Vec::new();
            let mut j: usize = 0;
            proof {
                assert(errors_view(errs@) =~= Seq::<CoercionErrorView>::empty());
                assert(args_view(args@) =~= Seq::<(Seq<char>, RubyData)>::empty());
            }
            while j < o.input_field_definitions.len()
                invariant
                    j <= o.input_field_definitions@.len(),
                    pv == strings_view(path@),
                    schema_wf(*schema),
                    idx < schema.input_objects@.len(),
                    *o == schema.input_objects@[idx as int],
                    value@ == RubyData::Hash(entries_view(entries@)),
                    *value == RubyValue::Hash(*entries),
                    spec_coerce_fields(*schema, idx, value@, pv, outcomes@, j as nat) == Ok::<
                        (Seq<(Seq<char>, RubyData)>, Seq<CoercionErrorView>),
                        FailureView,
                    >((args_view(args@), errors_view(errs@))),
                decreases o.input_field_definitions@.len() - j,
            {
                let ivd = &o.input_field_definitions[j];
                proof {
                    assert(type_wf(*schema, ivd.input_type));
                }
                let found = hash_find(entries, ivd.name.as_str());
                let required = ivd.default_value.is_none() && ivd.input_type.is_required();
                if required && found.is_none() {
                    let mut e = error_at(cat2("No value for required field ", ivd.name.as_str()), path);
                    proof {
                        lemma_errors_view_concat(errs@, e@);
                    }
                    errs.append(&mut e);
                } else {
                    let use_default = ivd.default_value.is_some() && found.is_none();
                    if use_default {
                        let d = match &ivd.default_value {
                            Some(d) => d.duplicate(),
                            None => RubyValue::Nil,
                        };
                        let key = ivd.ruby_name.clone();
                        proof {
                            assert(args_view(args@.push((key, d))) =~= args_view(args@).push((key@, d@)));
                        }
                        args.push((key, d));
                    } else {
                        let inner_path = push_key(path, ivd.name.as_str());
                        let r = match found {
                            Some(k) => {
                                proof {
                                    assert(entries_view(entries@)[k as int] == (entries@[k as int].0@, entries@[k as int].1@));
                                }
                                coerce_ruby(schema, &ivd.input_type, &entries[k].1, &inner_path, true, true, outcomes)
                            },
                            None => coerce_nil(&ivd.input_type, &inner_path),
                        };
                        match r {
                            Err(f) => {
                                proof {
                                    lemma_fields_sticky(*schema, idx, value@, pv, outcomes@, (j + 1) as nat, o.input_field_definitions@.len());
                                }
                                return Err(f);
                            },
                            Ok(Ok(x)) => {
                                let key = ivd.ruby_name.clone();
                                proof {
                                    assert(args_view(args@.push((key, x))) =~= args_view(args@).push((key@, x@)));
                                }
                                args.push((key, x));
                            },
                            Ok(Err(mut es)) => {
                                proof {
                                    lemma_errors_view_concat(errs@, es@);
                                }
                                errs.append(&mut es);
                            },
                        }
                    }
                }
                j = j + 1;
            }
            let extra = unknown_keys(o, entries, path);
            match extra {
                Err(f) => Err(f),
                Ok(mut more) => {
                    proof {
                        lemma_errors_view_concat(errs@, more@);
                    }
                    errs.append(&mut more);
                    if errs.len() == 0 {
                        let class_name = o.ruby_class_name.clone();
                        proof {
                            lemma_input_object_view(class_name, args);
                        }
                        Ok(Ok(RubyValue::InputObject { class_name, args }))
                    } else {
                        Ok(Err(errs))
                    }
                },
            }
        },
        _ => Ok(Err(error_at(cat4("No implicit conversion of ", public_name(value), " to ", o.name.as_str()), path))),
    }
}

impl InputType {
    /// Coerces a Ruby value given for a variable or an argument: a value
    /// that is not an array stands for a list of one element at the top.
    pub fn coerce_ruby_const_value(
        &self,
        schema: &InputSchema,
        value: &RubyValue,
        path: &Vec<String>,
        outcomes: &Vec<ScalarOutcome>,
    ) -> (r: Coerced)
        requires
            schema_wf(*schema),
            type_wf(*schema, *self),
        ensures
            coerced_view(r) == spec_coerce(*schema, *self, value@, strings_view(path@), true, false, outcomes@),
    {
        coerce_ruby(schema, self, value, path, true, false, outcomes)
    }

    /// Coerces a Ruby value given for an input object's field or for a
    /// default: a value that is not an array stands for a list of one
    /// element at every depth.  Beside the coerced value comes its GraphQL
    /// value (see [`spec_wrapped_inner`]).
    pub fn coerced_ruby_value_to_wrapped_value(
        &self,
        schema: &InputSchema,
        value: &RubyValue,
        path: &Vec<String>,
        outcomes: &Vec<ScalarOutcome>,
    ) -> (r: Wrapped)
        requires
            schema_wf(*schema),
            type_wf(*schema, *self),
        ensures
            wrapped_view(r) == spec_coerce_wrapped(*schema, *self, value@, strings_view(path@), outcomes@),
    {
        let c = coerce_ruby(schema, self, value, path, true, true, outcomes);
        let inner = match &c {
            Ok(Ok(x)) => wrapped_inner(self, value, x),
            _ => Ok(InnerValue::Null),
        };
        add_inner(c, inner)
    }
}

} // verus!
