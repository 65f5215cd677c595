//! Coercion of values written in a GraphQL document (arguments and the
//! defaults of variables) to input types.
use vstd::prelude::*;

use crate::coercion_error::{CoercionError, CoercionErrorView, errors_view, strings_view};
use crate::coercion_path::{push_index, push_key};
use crate::input_coercion::{
    ArgsState, Coerced, CoercedView, FailureView, ScalarOutcome, coerce_custom_scalar, coerce_nil,
    coerced_view, enum_has_value, has_field, has_field_named, lemma_errors_view_concat, list_finish,
    list_step, args_step, no_field_message, no_member_message, required_field_message,
    spec_coerce_custom_scalar, spec_coerce_nil, wrap_single,
};
use crate::input_schema::{
    BaseInputType, InputObjectTypeDefinition, InputSchema, InputType, schema_wf, spec_display_name,
    spec_is_required, type_depth, type_wf,
};
use crate::parser_value::{
    PData, PKind, ParserValue, ParserValueKind, ints_fit, lemma_pvalue_parts, literal_i32, pdata_ints_fit,
    pfields_view, pvalues_view, spec_literal_i32,
};
use crate::ruby_value::{
    RubyData, RubyFloat, RubyValue, args_view, entries_view, lemma_array_view, lemma_input_object_view,
    lemma_value_parts, values_view,
};
use crate::scalar::{BuiltinScalar, spec_scalar_name};
use crate::scalar_coercion::{error_at, integer_range_error, one_error};
use crate::text::{cat2, cat4, spec_decimal, str_eq};

verus! {

/// The values of the variables of a request, by name.
pub type VariablesView = Seq<(Seq<char>, RubyData)>;

/// The value of the first variable of this name.
pub open spec fn var_lookup_from(vars: VariablesView, name: Seq<char>, k: int) -> Option<RubyData>
    decreases vars.len() - k,
{
    if k < 0 || k >= vars.len() {
        None
    } else if vars[k].0 == name {
        Some(vars[k].1)
    } else {
        var_lookup_from(vars, name, k + 1)
    }
}

pub open spec fn var_lookup(vars: VariablesView, name: Seq<char>) -> Option<RubyData> {
    var_lookup_from(vars, name, 0)
}

/// The Ruby value that a document's value stands for: enum values become
/// strings, objects become hashes with string keys, and variables their
/// values (`nil` where there is none).
pub open spec fn spec_value_from_core(v: PData, vars: VariablesView) -> RubyData
    decreases v, 1nat, 0nat,
{
    match v.kind {
        PKind::Boolean(b) => RubyData::Boolean(b),
        PKind::Enum(e) => RubyData::String(e),
        PKind::Float(bits) => RubyData::Float(RubyFloat::Bits(bits)),
        PKind::Integer(lit) => match spec_literal_i32(lit) {
            Some(i) => RubyData::Integer(i as i64),
            None => RubyData::Nil,
        },
        PKind::Null => RubyData::Nil,
        PKind::String(s) => RubyData::String(s),
        PKind::Variable(n) => match var_lookup(vars, n) {
            Some(x) => x,
            None => RubyData::Nil,
        },
        PKind::List(l) => RubyData::Array(spec_list_from_core(v, vars, l.len())),
        PKind::Object(o) => RubyData::Hash(spec_object_from_core(v, vars, o.len())),
    }
}

/// The first `n` elements of a list value, converted.
pub open spec fn spec_list_from_core(v: PData, vars: VariablesView, n: nat) -> Seq<RubyData>
    decreases v, 0nat, n,
{
    match v.kind {
        PKind::List(l) => if n == 0 || n > l.len() {
            Seq::empty()
        } else {
            spec_list_from_core(v, vars, (n - 1) as nat).push(spec_value_from_core(l[n - 1], vars))
        },
        _ => Seq::empty(),
    }
}

/// The first `n` entries of an object value, converted.
pub open spec fn spec_object_from_core(v: PData, vars: VariablesView, n: nat) -> Seq<(RubyData, RubyData)>
    decreases v, 0nat, n,
{
    match v.kind {
        PKind::Object(o) => if n == 0 || n > o.len() {
            Seq::empty()
        } else {
            spec_object_from_core(v, vars, (n - 1) as nat).push(
                (RubyData::String(o[n - 1].0), spec_value_from_core(o[n - 1].1, vars)),
            )
        },
        _ => Seq::empty(),
    }
}

pub open spec fn vars_view(vars: Seq<(String, RubyValue)>) -> VariablesView {
    vars.map_values(|x: (String, RubyValue)| (x.0@, x.1@))
}

/// The index of the first variable of this name.
pub fn find_variable(vars: &Vec<(String, RubyValue)>, name: &str) -> (r: Option<usize>)
    ensures
        match r {
            None => var_lookup(vars_view(vars@), name@) is None,
            Some(k) => k < vars@.len() && var_lookup(vars_view(vars@), name@) == Some(vars@[k as int].1@),
        },
{
    let ghost vv = vars_view(vars@);
    let mut k: usize = 0;
    while k < vars.len()
        invariant
            k <= vars.len(),
            vv == vars_view(vars@),
            var_lookup_from(vv, name@, 0) == var_lookup_from(vv, name@, k as int),
        decreases vars.len() - k,
    {
        if str_eq(vars[k].0.as_str(), name) {
            return Some(k);
        }
        k = k + 1;
    }
    None
}

/// Converts a document's value to the Ruby value it stands for.
pub fn value_from_core_value(value: &ParserValue, vars: &Vec<(String, RubyValue)>) -> (r: RubyValue)
    ensures
        r@ == spec_value_from_core(value@, vars_view(vars@)),
    decreases value,
{
    match &value.kind {
        ParserValueKind::Boolean(b) => RubyValue::Boolean(*b),
        ParserValueKind::Enum(e) => RubyValue::String(e.clone()),
        ParserValueKind::Float(bits) => RubyValue::Float(RubyFloat::Bits(*bits)),
        ParserValueKind::Integer(lit) => match literal_i32(lit.as_str()) {
            Some(i) => RubyValue::Integer(i as i64),
            None => RubyValue::Nil,
        },
        ParserValueKind::Null => RubyValue::Nil,
        ParserValueKind::String(s) => RubyValue::String(s.clone()),
        ParserValueKind::Variable(n) => match find_variable(vars, n.as_str()) {
            Some(k) => vars[k].1.duplicate(),
            None => RubyValue::Nil,
        },
        ParserValueKind::List(l) => {
            proof {
                lemma_pvalue_parts(*value);
            }
            let mut out: Vec<RubyValue> = Vec::new();
            let mut i: usize = 0;
            while i < l.len()
                invariant
                    i <= l.len(),
                    value.kind == ParserValueKind::List(*l),
                    value@.kind == PKind::List(pvalues_view(l@)),
                    values_view(out@) == spec_list_from_core(value@, vars_view(vars@), i as nat),
                decreases l.len() - i,
            {
                proof {
                    assert(decreases_to!(*value => value.kind));
                    assert(decreases_to!(value.kind => *l));
                }
                let x = value_from_core_value(&l[i], vars);
                proof {
                    assert(pvalues_view(l@)[i as int] == l@[i as int]@);
                    assert(values_view(out@.push(x)) =~= values_view(out@).push(x@));
                }
                out.push(x);
                i = i + 1;
            }
            proof {
                lemma_array_view(out);
            }
            RubyValue::Array(out)
        },
        ParserValueKind::Object(o) => {
            proof {
                lemma_pvalue_parts(*value);
            }
            let mut out: Vec<(RubyValue, RubyValue)> = Vec::new();
            let mut i: usize = 0;
            while i < o.len()
                invariant
                    i <= o.len(),
                    value.kind == ParserValueKind::Object(*o),
                    value@.kind == PKind::Object(pfields_view(o@)),
                    entries_view(out@) == spec_object_from_core(value@, vars_view(vars@), i as nat),
                decreases o.len() - i,
            {
                proof {
                    assert(decreases_to!(*value => value.kind));
                    assert(decreases_to!(value.kind => *o));
                    assert(decreases_to!(o@[i as int] => o@[i as int].1));
                }
                let x = value_from_core_value(&o[i].1, vars);
                let k = RubyValue::String(o[i].0.clone());
                proof {
                    assert(pfields_view(o@)[i as int] == (o@[i as int].0@, o@[i as int].1@));
                    assert(entries_view(out@.push((k, x))) =~= entries_view(out@).push((k@, x@)));
                }
                out.push((k, x));
                i = i + 1;
            }
            let r = RubyValue::Hash(out);
            proof {
                lemma_value_parts(r);
            }
            r
        },
    }
}

/// The message for a value of the document that the type cannot hold.
pub open spec fn parser_conversion_message(v: PData, target: Seq<char>) -> Seq<char> {
    "No implicit conversion of "@ + v.display + " to "@ + target
}

/// The coercion of a document's value to a built-in scalar type.
pub open spec fn spec_coerce_builtin_parser(s: BuiltinScalar, v: PData, path: Seq<Seq<char>>) -> Result<
    RubyData,
    Seq<CoercionErrorView>,
> {
    match (s, v.kind) {
        (BuiltinScalar::Boolean, PKind::Boolean(b)) => Ok(RubyData::Boolean(b)),
        (BuiltinScalar::Float, PKind::Float(bits)) => Ok(RubyData::Float(RubyFloat::Bits(bits))),
        (BuiltinScalar::Float, PKind::Integer(lit)) => match spec_literal_i32(lit) {
            Some(i) => Ok(RubyData::Float(RubyFloat::FromInteger(i))),
            None => Err(one_error("Integer values must fit within 32 bits signed"@, path)),
        },
        (BuiltinScalar::ID, PKind::Integer(lit)) | (BuiltinScalar::Int, PKind::Integer(lit)) => match spec_literal_i32(lit) {
            Some(i) => Ok(RubyData::Integer(i as i64)),
            None => Err(one_error("Integer values must fit within 32 bits signed"@, path)),
        },
        (BuiltinScalar::ID, PKind::String(t)) => Ok(RubyData::String(t)),
        (BuiltinScalar::String, PKind::String(t)) => Ok(RubyData::String(t)),
        _ => Err(one_error(parser_conversion_message(v, spec_scalar_name(s)), path)),
    }
}

/// The coercion of a document's value to an enum type: an enum value naming
/// one of its values becomes that name.
pub open spec fn spec_coerce_enum_parser(schema: InputSchema, idx: usize, v: PData, path: Seq<Seq<char>>) -> Result<
    RubyData,
    Seq<CoercionErrorView>,
> {
    let e = schema.enums@[idx as int];
    match v.kind {
        PKind::Enum(name) => if enum_has_value(e, name) {
            Ok(RubyData::String(name))
        } else {
            Err(one_error(no_member_message(name, e.name@), path))
        },
        _ => Err(one_error(parser_conversion_message(v, e.name@), path)),
    }
}

pub open spec fn received_null_message(var: Seq<char>, target: Seq<char>) -> Seq<char> {
    "Received `null` for $"@ + var + ", which is invalid for "@ + target
}

/// The coercion of a document's value to an input type.  Variables stand
/// for their values, which were coerced when the request began.
pub open spec fn spec_coerce_parser(
    schema: InputSchema,
    ty: InputType,
    v: PData,
    path: Seq<Seq<char>>,
    vars: VariablesView,
    implicit_list: bool,
    outcomes: Seq<ScalarOutcome>,
) -> CoercedView
    decreases v, type_depth(ty) + 1, 0nat,
{
    match v.kind {
        PKind::Null => spec_coerce_nil(ty, path),
        PKind::Variable(name) => match var_lookup(vars, name) {
            Some(x) => if spec_is_required(ty) && x is Nil {
                Ok(Err(one_error(received_null_message(name, spec_display_name(schema, ty)), path)))
            } else {
                Ok(Ok(x))
            },
            None => Ok(Ok(RubyData::Nil)),
        },
        _ => match ty {
            InputType::Base(base, _) => match base {
                BaseInputType::BuiltinScalar(s) => Ok(spec_coerce_builtin_parser(s, v, path)),
                BaseInputType::Enum(idx) => Ok(spec_coerce_enum_parser(schema, idx, v, path)),
                BaseInputType::CustomScalar(idx) => if pdata_ints_fit(v) {
                    spec_coerce_custom_scalar(schema, idx, spec_value_from_core(v, vars), path, outcomes)
                } else {
                    Ok(Err(one_error("Integer values must fit within 32 bits signed"@, path)))
                },
                BaseInputType::InputObject(idx) => spec_coerce_input_object_parser(schema, idx, v, path, vars, outcomes),
            },
            InputType::List(inner, _) => match v.kind {
                PKind::List(l) => list_finish(spec_coerce_parser_items(schema, *inner, v, path, vars, outcomes, l.len())),
                _ => if implicit_list {
                    wrap_single(spec_coerce_parser(schema, *inner, v, path, vars, true, outcomes))
                } else {
                    Ok(Err(one_error(parser_conversion_message(v, spec_display_name(schema, ty)), path)))
                },
            },
        },
    }
}

/// The coercion of the first `n` elements of the list value `v` to `inner`.
pub open spec fn spec_coerce_parser_items(
    schema: InputSchema,
    inner: InputType,
    v: PData,
    path: Seq<Seq<char>>,
    vars: VariablesView,
    outcomes: Seq<ScalarOutcome>,
    n: nat,
) -> crate::input_coercion::ListState
    decreases v, 0nat, n,
{
    match v.kind {
        PKind::List(l) => if n == 0 || n > l.len() {
            Ok((Seq::empty(), Seq::empty()))
        } else {
            list_step(
                spec_coerce_parser_items(schema, inner, v, path, vars, outcomes, (n - 1) as nat),
                spec_coerce_parser(schema, inner, l[n - 1], path.push(spec_decimal((n - 1) as nat)), vars, false, outcomes),
            )
        },
        _ => Ok((Seq::empty(), Seq::empty())),
    }
}

/// The index of the first entry of an object value with this name.
pub open spec fn pfield_index_from(fields: Seq<(Seq<char>, PData)>, name: Seq<char>, k: int) -> Option<int>
    decreases fields.len() - k,
{
    if k < 0 || k >= fields.len() {
        None
    } else if fields[k].0 == name {
        Some(k)
    } else {
        pfield_index_from(fields, name, k + 1)
    }
}

pub open spec fn pfield_index(fields: Seq<(Seq<char>, PData)>, name: Seq<char>) -> Option<int> {
    pfield_index_from(fields, name, 0)
}

/// The coercion of the first `n` fields of the input object type `idx`
/// from the object value `v`.
pub open spec fn spec_coerce_parser_fields(
    schema: InputSchema,
    idx: usize,
    v: PData,
    path: Seq<Seq<char>>,
    vars: VariablesView,
    outcomes: Seq<ScalarOutcome>,
    n: nat,
) -> ArgsState
    decreases v, 0nat, n,
{
    let fields = schema.input_objects@[idx as int].input_field_definitions@;
    match v.kind {
        PKind::Object(o) => if n == 0 || n > fields.len() {
            Ok((Seq::empty(), Seq::empty()))
        } else {
            let ivd = fields[n - 1];
            let state = spec_coerce_parser_fields(schema, idx, v, path, vars, outcomes, (n - 1) as nat);
            match pfield_index(o, ivd.name@) {
                Some(k) => if 0 <= k < o.len() {
                    args_step(
                        state,
                        ivd.ruby_name@,
                        spec_coerce_parser(schema, ivd.input_type, o[k].1, path.push(ivd.name@), vars, true, outcomes),
                    )
                } else {
                    state
                },
                None => match ivd.default_value {
                    Some(d) => args_step(state, ivd.ruby_name@, Ok(Ok(d@))),
                    None => if spec_is_required(ivd.input_type) {
                        match state {
                            Err(f) => Err(f),
                            Ok((args, errs)) => Ok((args, errs + one_error(required_field_message(ivd.name@), path))),
                        }
                    } else {
                        state
                    },
                },
            }
        },
        _ => Ok((Seq::empty(), Seq::empty())),
    }
}

/// The errors for the first `n` entries of an object value that name no
/// field of the input object type.
pub open spec fn spec_parser_unknown_keys(
    o: InputObjectTypeDefinition,
    fields: Seq<(Seq<char>, PData)>,
    path: Seq<Seq<char>>,
    n: nat,
) -> Seq<CoercionErrorView>
    decreases n,
{
    if n == 0 || n > fields.len() {
        Seq::empty()
    } else {
        let errs = spec_parser_unknown_keys(o, fields, path, (n - 1) as nat);
        if has_field_named(o, fields[n - 1].0) {
            errs
        } else {
            errs + one_error(no_field_message(fields[n - 1].0, o.name@), path)
        }
    }
}

/// The coercion of a document's value to the input object type `idx`.
pub open spec fn spec_coerce_input_object_parser(
    schema: InputSchema,
    idx: usize,
    v: PData,
    path: Seq<Seq<char>>,
    vars: VariablesView,
    outcomes: Seq<ScalarOutcome>,
) -> CoercedView
    decreases v, 0nat, schema.input_objects@[idx as int].input_field_definitions@.len() + 1,
{
    let o = schema.input_objects@[idx as int];
    match v.kind {
        PKind::Object(fields) => match spec_coerce_parser_fields(
            schema,
            idx,
            v,
            path,
            vars,
            outcomes,
            o.input_field_definitions@.len(),
        ) {
            Err(f) => Err(f),
            Ok((args, errs)) => {
                let all = errs + spec_parser_unknown_keys(o, fields, path, fields.len());
                if all.len() == 0 {
                    Ok(Ok(RubyData::InputObject { class_name: o.ruby_class_name@, args }))
                } else {
                    Ok(Err(all))
                }
            },
        },
        _ => Ok(Err(one_error(parser_conversion_message(v, o.name@), path))),
    }
}

/// Coerces a document's value to a built-in scalar type.
pub fn coerce_builtin_parser(s: BuiltinScalar, value: &ParserValue, path: &Vec<String>) -> (r: Result<
    RubyValue,
    Vec<CoercionError>,
>)
    ensures
        crate::scalar_coercion::scalar_result_view(r) == spec_coerce_builtin_parser(s, value@, strings_view(path@)),
{
    match (s, &value.kind) {
        (BuiltinScalar::Boolean, ParserValueKind::Boolean(b)) => Ok(RubyValue::Boolean(*b)),
        (BuiltinScalar::Float, ParserValueKind::Float(bits)) => Ok(RubyValue::Float(RubyFloat::Bits(*bits))),
        (BuiltinScalar::Float, ParserValueKind::Integer(lit)) => match literal_i32(lit.as_str()) {
            Some(i) => Ok(RubyValue::Float(RubyFloat::FromInteger(i))),
            None => Err(integer_range_error(path)),
        },
        (BuiltinScalar::ID, ParserValueKind::Integer(lit)) | (BuiltinScalar::Int, ParserValueKind::Integer(lit)) => {
            match literal_i32(lit.as_str()) {
                Some(i) => Ok(RubyValue::Integer(i as i64)),
                None => Err(integer_range_error(path)),
            }
        },
        (BuiltinScalar::ID, ParserValueKind::String(t)) => Ok(RubyValue::String(t.clone())),
        (BuiltinScalar::String, ParserValueKind::String(t)) => Ok(RubyValue::String(t.clone())),
        _ => Err(error_at(cat4("No implicit conversion of ", value.display.as_str(), " to ", s.name()), path)),
    }
}

/// Coerces a document's value to the enum type `idx`.
pub fn coerce_enum_parser(schema: &InputSchema, idx: usize, value: &ParserValue, path: &Vec<String>) -> (r: Result<
    RubyValue,
    Vec<CoercionError>,
>)
    requires
        idx < schema.enums@.len(),
    ensures
        crate::scalar_coercion::scalar_result_view(r) == spec_coerce_enum_parser(*schema, idx, value@, strings_view(path@)),
{
    let e = &schema.enums[idx];
    match &value.kind {
        ParserValueKind::Enum(name) => {
            let mut k: usize = 0;
            while k < e.enum_value_definitions.len()
                invariant
                    k <= e.enum_value_definitions@.len(),
                    idx < schema.enums@.len(),
                    *e == schema.enums@[idx as int],
                    value@.kind == PKind::Enum(name@),
                    forall|j: int| 0 <= j < k ==> e.enum_value_definitions@[j].name@ != name@,
                decreases e.enum_value_definitions@.len() - k,
            {
                if e.enum_value_definitions[k].name == *name {
                    proof {
                        assert(e.enum_value_definitions@[k as int].name@ == name@);
                    }
                    return Ok(RubyValue::String(name.clone()));
                }
                k = k + 1;
            }
            Err(error_at(cat4("No member `", name.as_str(), "` on ", e.name.as_str()), path))
        },
        _ => Err(error_at(cat4("No implicit conversion of ", value.display.as_str(), " to ", e.name.as_str()), path)),
    }
}

/// The index of the first entry of an object value with this name.
fn pfield_find(fields: &Vec<(String, ParserValue)>, name: &String) -> (r: Option<usize>)
    ensures
        match r {
            None => pfield_index(pfields_view(fields@), name@) is None,
            Some(k) => k < fields@.len() && pfield_index(pfields_view(fields@), name@) == Some(k as int),
        },
{
    let ghost fv = pfields_view(fields@);
    let mut k: usize = 0;
    while k < fields.len()
        invariant
            k <= fields.len(),
            fv == pfields_view(fields@),
            pfield_index_from(fv, name@, 0) == pfield_index_from(fv, name@, k as int),
        decreases fields.len() - k,
    {
        if fields[k].0 == *name {
            return Some(k);
        }
        k = k + 1;
    }
    None
}

/// The errors for the entries of an object value that name no field of the
/// input object type, in the order of the entries.
fn parser_unknown_keys(o: &InputObjectTypeDefinition, fields: &Vec<(String, ParserValue)>, path: &Vec<String>) -> (r: Vec<
    CoercionError,
>)
    ensures
        errors_view(r@) == spec_parser_unknown_keys(*o, pfields_view(fields@), strings_view(path@), fields@.len()),
{
    let ghost fv = pfields_view(fields@);
    let mut errs: Vec<CoercionError> = Vec::new();
    let mut k: usize = 0;
    proof {
        assert(errors_view(errs@) =~= Seq::<CoercionErrorView>::empty());
    }
    while k < fields.len()
        invariant
            k <= fields.len(),
            fv == pfields_view(fields@),
            errors_view(errs@) == spec_parser_unknown_keys(*o, fv, strings_view(path@), k as nat),
        decreases fields.len() - k,
    {
        if !has_field(o, &fields[k].0) {
            let mut e = error_at(cat4("No field named `", fields[k].0.as_str(), "` on ", o.name.as_str()), path);
            proof {
                lemma_errors_view_concat(errs@, e@);
            }
            errs.append(&mut e);
        }
        k = k + 1;
    }
    errs
}

proof fn lemma_parser_items_sticky(
    schema: InputSchema,
    inner: InputType,
    v: PData,
    path: Seq<Seq<char>>,
    vars: VariablesView,
    outcomes: Seq<ScalarOutcome>,
    i: nat,
    n: nat,
)
    requires
        v.kind is List,
        i <= n <= v.kind->List_0.len(),
        spec_coerce_parser_items(schema, inner, v, path, vars, outcomes, i) is Err,
    ensures
        spec_coerce_parser_items(schema, inner, v, path, vars, outcomes, n) == spec_coerce_parser_items(
            schema,
            inner,
            v,
            path,
            vars,
            outcomes,
            i,
        ),
    decreases n - i,
{
    if n > i {
        lemma_parser_items_sticky(schema, inner, v, path, vars, outcomes, i, (n - 1) as nat);
    }
}

proof fn lemma_parser_fields_sticky(
    schema: InputSchema,
    idx: usize,
    v: PData,
    path: Seq<Seq<char>>,
    vars: VariablesView,
    outcomes: Seq<ScalarOutcome>,
    i: nat,
    n: nat,
)
    requires
        v.kind is Object,
        i <= n <= schema.input_objects@[idx as int].input_field_definitions@.len(),
        spec_coerce_parser_fields(schema, idx, v, path, vars, outcomes, i) is Err,
    ensures
        spec_coerce_parser_fields(schema, idx, v, path, vars, outcomes, n) == spec_coerce_parser_fields(
            schema,
            idx,
            v,
            path,
            vars,
            outcomes,
            i,
        ),
    decreases n - i,
{
    if n > i {
        lemma_parser_fields_sticky(schema, idx, v, path, vars, outcomes, i, (n - 1) as nat);
    }
}

/// Coerces a document's value to an input type.
///
/// `implicit_list` tells whether a value that is not a list may stand for a
/// list of one element; the elements of a list value never may.  Where a
/// custom scalar's coercion is needed and `outcomes` holds none for its
/// path, the result asks for it.
pub fn coerce_parser(
    schema: &InputSchema,
    ty: &InputType,
    value: &ParserValue,
    path: &Vec<String>,
    vars: &Vec<(String, RubyValue)>,
    implicit_list: bool,
    outcomes: &Vec<ScalarOutcome>,
) -> (r: Coerced)
    requires
        schema_wf(*schema),
        type_wf(*schema, *ty),
    ensures
        coerced_view(r) == spec_coerce_parser(
            *schema,
            *ty,
            value@,
            strings_view(path@),
            vars_view(vars@),
            implicit_list,
            outcomes@,
        ),
    decreases value, type_depth(*ty) + 1,
{
    match &value.kind {
        ParserValueKind::Null => {
            return coerce_nil(ty, path);
        },
        ParserValueKind::Variable(name) => {
            return match find_variable(vars, name.as_str()) {
                Some(k) => {
                    let x = &vars[k].1;
                    let is_nil = match x {
                        RubyValue::Nil => true,
                        _ => false,
                    };
                    if ty.is_required() && is_nil {
                        let shown = schema.display_name(ty);
                        let mut m = cat2("Received `null` for $", name.as_str());
                        m.append(", which is invalid for ");
                        m.append(shown.as_str());
                        Ok(Err(error_at(m, path)))
                    } else {
                        Ok(Ok(x.duplicate()))
                    }
                },
                None => Ok(Ok(RubyValue::Nil)),
            };
        },
        _ => {},
    }
    match ty {
        InputType::Base(base, _) => match base {
            BaseInputType::BuiltinScalar(s) => match coerce_builtin_parser(*s, value, path) {
                Ok(v) => Ok(Ok(v)),
                Err(e) => Ok(Err(e)),
            },
            BaseInputType::Enum(idx) => match coerce_enum_parser(schema, *idx, value, path) {
                Ok(v) => Ok(Ok(v)),
                Err(e) => Ok(Err(e)),
            },
            BaseInputType::CustomScalar(idx) => {
                if !ints_fit(value) {
                    return Ok(Err(integer_range_error(path)));
                }
                let raw = value_from_core_value(value, vars);
                coerce_custom_scalar(schema, *idx, &raw, path, outcomes)
            },
            BaseInputType::InputObject(idx) => coerce_input_object_parser(schema, *idx, value, path, vars, outcomes),
        },
        InputType::List(inner, _) => match &value.kind {
            ParserValueKind::List(items) => {
                let ghost pv = strings_view(path@);
                proof {
                    lemma_pvalue_parts(*value);
                }
                let mut vals: Vec<RubyValue> = Vec::new();
                let mut errs: Vec<CoercionError> = Vec::new();
                let mut i: usize = 0;
                proof {
                    assert(errors_view(errs@) =~= Seq::<CoercionErrorView>::empty());
                    assert(values_view(vals@) =~= Seq::<RubyData>::empty());
                }
                while i < items.len()
                    invariant
                        i <= items.len(),
                        pv == strings_view(path@),
                        schema_wf(*schema),
                        type_wf(*schema, **inner),
                        *ty == InputType::List(*inner, spec_is_required(*ty)),
                        value.kind == ParserValueKind::List(*items),
                        value@.kind == PKind::List(pvalues_view(items@)),
                        spec_coerce_parser_items(*schema, **inner, value@, pv, vars_view(vars@), outcomes@, i as nat)
                            == Ok::<(Seq<RubyData>, Seq<CoercionErrorView>), FailureView>(
                            (values_view(vals@), errors_view(errs@)),
                        ),
                    decreases items.len() - i,
                {
                    proof {
                        assert(decreases_to!(*value => value.kind));
                        assert(decreases_to!(value.kind => *items));
                    }
                    let item_path = push_index(path, i);
                    let r = coerce_parser(schema, inner, &items[i], &item_path, vars, false, outcomes);
                    proof {
                        assert(pvalues_view(items@)[i as int] == items@[i as int]@);
                    }
                    match r {
                        Err(f) => {
                            proof {
                                lemma_parser_items_sticky(
                                    *schema,
                                    **inner,
                                    value@,
                                    pv,
                                    vars_view(vars@),
                                    outcomes@,
                                    (i + 1) as nat,
                                    items@.len(),
                                );
                            }
                            return Err(f);
                        },
                        Ok(Ok(x)) => {
                            proof {
                                assert(values_view(vals@.push(x)) =~= values_view(vals@).push(x@));
                            }
                            vals.push(x);
                        },
                        Ok(Err(mut es)) => {
                            proof {
                                lemma_errors_view_concat(errs@, es@);
                            }
                            errs.append(&mut es);
                        },
                    }
                    i = i + 1;
                }
                if errs.len() == 0 {
                    proof {
                        lemma_array_view(vals);
                    }
                    Ok(Ok(RubyValue::Array(vals)))
                } else {
                    Ok(Err(errs))
                }
            },
            _ => {
                if implicit_list {
                    let r = coerce_parser(schema, inner, value, path, vars, true, outcomes);
                    match r {
                        Ok(Ok(x)) => {
                            let mut v: Vec<RubyValue> = Vec::new();
                            v.push(x);
                            proof {
                                lemma_array_view(v);
                                assert(values_view(v@) =~= seq![x@]);
                            }
                            Ok(Ok(RubyValue::Array(v)))
                        },
                        other => other,
                    }
                } else {
                    let name = schema.display_name(ty);
                    Ok(Err(error_at(cat4("No implicit conversion of ", value.display.as_str(), " to ", name.as_str()), path)))
                }
            },
        },
    }
}

/// Coerces a document's object value to the input object type `idx`.
pub fn coerce_input_object_parser(
    schema: &InputSchema,
    idx: usize,
    value: &ParserValue,
    path: &Vec<String>,
    vars: &Vec<(String, RubyValue)>,
    outcomes: &Vec<ScalarOutcome>,
) -> (r: Coerced)
    requires
        schema_wf(*schema),
        idx < schema.input_objects@.len(),
    ensures
        coerced_view(r) == spec_coerce_input_object_parser(
            *schema,
            idx,
            value@,
            strings_view(path@),
            vars_view(vars@),
            outcomes@,
        ),
    decreases value, 0nat,
{
    let o = &schema.input_objects[idx];
    match &value.kind {
        ParserValueKind::Object(fields) => {
            let ghost pv = strings_view(path@);
            let ghost vv = vars_view(vars@);
            proof {
                lemma_pvalue_parts(*value);
            }
            let mut args: Vec<(String, RubyValue)> = Vec::new();
            let mut errs: Vec<CoercionError> = Vec::new();
            let mut j: usize = 0;
            proof {
                assert(errors_view(errs@) =~= Seq::<CoercionErrorView>::empty());
                assert(args_view(args@) =~= Seq::<(Seq<char>, RubyData)>::empty());
            }
            while j < o.input_field_definitions.len()
                invariant
                    j <= o.input_field_definitions@.len(),
                    pv == strings_view(path@),
                    vv == vars_view(vars@),
                    schema_wf(*schema),
                    idx < schema.input_objects@.len(),
                    *o == schema.input_objects@[idx as int],
                    value.kind == ParserValueKind::Object(*fields),
                    value@.kind == PKind::Object(pfields_view(fields@)),
                    spec_coerce_parser_fields(*schema, idx, value@, pv, vv, outcomes@, j as nat) == Ok::<
                        (Seq<(Seq<char>, RubyData)>, Seq<CoercionErrorView>),
                        FailureView,
                    >((args_view(args@), errors_view(errs@))),
                decreases o.input_field_definitions@.len() - j,
            {
                let ivd = &o.input_field_definitions[j];
                proof {
                    assert(type_wf(*schema, ivd.input_type));
                }
                match pfield_find(fields, &ivd.name) {
                    Some(k) => {
                        proof {
                            assert(pfields_view(fields@)[k as int] == (fields@[k as int].0@, fields@[k as int].1@));
                            assert(decreases_to!(*value => value.kind));
                            assert(decreases_to!(value.kind => *fields));
                            assert(decreases_to!(fields@[k as int] => fields@[k as int].1));
                        }
                        let inner_path = push_key(path, ivd.name.as_str());
                        let r = coerce_parser(schema, &ivd.input_type, &fields[k].1, &inner_path, vars, true, outcomes);
                        match r {
                            Err(f) => {
                                proof {
                                    lemma_parser_fields_sticky(
                                        *schema,
                                        idx,
                                        value@,
                                        pv,
                                        vv,
                                        outcomes@,
                                        (j + 1) as nat,
                                        o.input_field_definitions@.len(),
                                    );
                                }
                                return Err(f);
                            },
                            Ok(Ok(x)) => {
                                let key = ivd.ruby_name.clone();
                                proof {
                                    assert(args_view(args@.push((key, x))) =~= args_view(args@).push((key@, x@)));
                                }
                                args.push((key, x));
                            },
                            Ok(Err(mut es)) => {
                                proof {
                                    lemma_errors_view_concat(errs@, es@);
                                }
                                errs.append(&mut es);
                            },
                        }
                    },
                    None => match &ivd.default_value {
                        Some(d) => {
                            let key = ivd.ruby_name.clone();
                            let x = d.duplicate();
                            proof {
                                assert(args_view(args@.push((key, x))) =~= args_view(args@).push((key@, x@)));
                            }
                            args.push((key, x));
                        },
                        None => {
                            if ivd.input_type.is_required() {
                                let mut e = error_at(cat2("No value for required field ", ivd.name.as_str()), path);
                                proof {
                                    lemma_errors_view_concat(errs@, e@);
                                }
                                errs.append(&mut e);
                            }
                        },
                    },
                }
                j = j + 1;
            }
            let mut more = parser_unknown_keys(o, fields, path);
            proof {
                lemma_errors_view_concat(errs@, more@);
            }
            errs.append(&mut more);
            if errs.len() == 0 {
                let class_name = o.ruby_class_name.clone();
                proof {
                    lemma_input_object_view(class_name, args);
                }
                Ok(Ok(RubyValue::InputObject { class_name, args }))
            } else {
                Ok(Err(errs))
            }
        },
        _ => Ok(Err(error_at(cat4("No implicit conversion of ", value.display.as_str(), " to ", o.name.as_str()), path))),
    }
}

impl InputType {
    /// Coerces a value written in a document; a value that is not a list
    /// stands for a list of one element.
    pub fn coerce_parser_value(
        &self,
        schema: &InputSchema,
        value: &ParserValue,
        path: &Vec<String>,
        vars: &Vec<(String, RubyValue)>,
        outcomes: &Vec<ScalarOutcome>,
    ) -> (r: Coerced)
        requires
            schema_wf(*schema),
            type_wf(*schema, *self),
        ensures
            coerced_view(r) == spec_coerce_parser(
                *schema,
                *self,
                value@,
                strings_view(path@),
                vars_view(vars@),
                true,
                outcomes@,
            ),
    {
        coerce_parser(schema, self, value, path, vars, true, outcomes)
    }
}

} // verus!
