//! Properties that hold of the library as a whole.
use vstd::prelude::*;

use crate::input_coercion::{
    ScalarOutcome, null_message, spec_coerce, spec_coerce_items, spec_coerce_nil, wrap_single,
};
use crate::input_schema::{
    InputSchema, InputType, spec_is_required, type_depth, spec_input_kind, spec_input_of_type,
};
use crate::introspection::{TypeKind, spec_kind_name};
use crate::output_schema::{OutputType, spec_output_is_required, spec_output_kind, spec_output_of_type};
use crate::parser_coercion::{VariablesView, spec_coerce_parser};
use crate::parser_value::{PData, PKind};
use crate::path::{ElementView, rendered_reversed, spec_render};
use crate::ruby_value::RubyData;
use crate::scalar::BuiltinScalar;
use crate::scalar_coercion::{one_error, spec_coerce_builtin};
use crate::warden::after_report;
use crate::inner_value::{InnerData, spec_coerce_wrapped};
use crate::input_coercion::{ArgsState, CoercedView, ListState, list_finish, list_step, outcome_index};
use crate::input_schema::{BaseInputType, InputObjectTypeDefinition, spec_display_name};
use crate::parser_coercion::{parser_conversion_message, spec_parser_unknown_keys};

verus! {

/// Coercing `nil`, from Ruby or written as `null`, gives `nil` for a
/// nullable type and exactly one error, "Got null when a non-null value was
/// expected", at the value's path for a required type.
pub proof fn law_null_coercion(
    schema: InputSchema,
    ty: InputType,
    path: Seq<Seq<char>>,
    implicit_list: bool,
    wrapped: bool,
    outcomes: Seq<ScalarOutcome>,
    written: PData,
    vars: VariablesView,
)
    requires
        written.kind == PKind::Null,
    ensures
        spec_coerce(schema, ty, RubyData::Nil, path, implicit_list, wrapped, outcomes) == spec_coerce_parser(
            schema,
            ty,
            written,
            path,
            vars,
            implicit_list,
            outcomes,
        ),
        spec_is_required(ty) ==> spec_coerce(schema, ty, RubyData::Nil, path, implicit_list, wrapped, outcomes) == Ok::<
            Result<RubyData, Seq<(Seq<char>, Seq<Seq<char>>)>>,
            crate::input_coercion::FailureView,
        >(Err(one_error(null_message(), path))),
        !spec_is_required(ty) ==> spec_coerce(schema, ty, RubyData::Nil, path, implicit_list, wrapped, outcomes)
            == Ok::<Result<RubyData, Seq<(Seq<char>, Seq<Seq<char>>)>>, crate::input_coercion::FailureView>(
            Ok(RubyData::Nil),
        ),
{
}

/// A coercion that fails reports at least one error.
pub proof fn law_coercion_errors_nonempty(
    schema: InputSchema,
    ty: InputType,
    v: RubyData,
    path: Seq<Seq<char>>,
    implicit_list: bool,
    wrapped: bool,
    outcomes: Seq<ScalarOutcome>,
)
    ensures
        spec_coerce(schema, ty, v, path, implicit_list, wrapped, outcomes) matches Ok(Err(es)) ==> es.len() > 0,
    decreases type_depth(ty),
{
    if !(v is Nil) {
        match ty {
            InputType::List(inner, _) => {
                if !(v is Array) && implicit_list {
                    law_coercion_errors_nonempty(schema, *inner, v, path, true, wrapped, outcomes);
                }
            },
            InputType::Base(base, _) => match base {
                crate::input_schema::BaseInputType::InputObject(idx) => {
                    let r = crate::input_coercion::spec_coerce_input_object(schema, idx, v, path, outcomes);
                    assert(r matches Ok(Err(es)) ==> es.len() > 0);
                },
                crate::input_schema::BaseInputType::CustomScalar(idx) => {
                    let r = crate::input_coercion::spec_coerce_custom_scalar(schema, idx, v, path, outcomes);
                    assert(r matches Ok(Err(es)) ==> es.len() > 0);
                },
                _ => {},
            },
        }
    }
}

/// The number of the first `n` elements that did not coerce.
pub open spec fn failed_items(
    schema: InputSchema,
    inner: InputType,
    v: RubyData,
    path: Seq<Seq<char>>,
    wrapped: bool,
    outcomes: Seq<ScalarOutcome>,
    n: nat,
) -> nat
    decreases n,
{
    match v {
        RubyData::Array(items) => if n == 0 || n > items.len() {
            0
        } else {
            failed_items(schema, inner, v, path, wrapped, outcomes, (n - 1) as nat) + if spec_coerce(
                schema,
                inner,
                items[n - 1],
                path.push(crate::text::spec_decimal((n - 1) as nat)),
                wrapped,
                wrapped,
                outcomes,
            ) is Ok && spec_coerce(
                schema,
                inner,
                items[n - 1],
                path.push(crate::text::spec_decimal((n - 1) as nat)),
                wrapped,
                wrapped,
                outcomes,
            )->Ok_0 is Err {
                1nat
            } else {
                0nat
            }
        },
        _ => 0,
    }
}

proof fn lemma_items_count(
    schema: InputSchema,
    inner: InputType,
    v: RubyData,
    path: Seq<Seq<char>>,
    wrapped: bool,
    outcomes: Seq<ScalarOutcome>,
    n: nat,
)
    requires
        v is Array,
        n <= v->Array_0.len(),
    ensures
        spec_coerce_items(schema, inner, v, path, wrapped, outcomes, n) matches Ok((vals, errs)) ==> vals.len()
            + failed_items(schema, inner, v, path, wrapped, outcomes, n) == n && errs.len() >= failed_items(
            schema,
            inner,
            v,
            path,
            wrapped,
            outcomes,
            n,
        ),
    decreases n,
{
    if n > 0 {
        lemma_items_count(schema, inner, v, path, wrapped, outcomes, (n - 1) as nat);
        let items = v->Array_0;
        law_coercion_errors_nonempty(
            schema,
            inner,
            items[n - 1],
            path.push(crate::text::spec_decimal((n - 1) as nat)),
            wrapped,
            wrapped,
            outcomes,
        );
    }
}

/// A Ruby array that coerces to a list type gives a list of as many
/// elements.
pub proof fn law_list_coercion_keeps_length(
    schema: InputSchema,
    inner: InputType,
    required: bool,
    items: Seq<RubyData>,
    path: Seq<Seq<char>>,
    implicit_list: bool,
    wrapped: bool,
    outcomes: Seq<ScalarOutcome>,
)
    ensures
        spec_coerce(
            schema,
            InputType::List(Box::new(inner), required),
            RubyData::Array(items),
            path,
            implicit_list,
            wrapped,
            outcomes,
        ) matches Ok(Ok(RubyData::Array(vals))) ==> vals.len() == items.len(),
{
    lemma_items_count(schema, inner, RubyData::Array(items), path, wrapped, outcomes, items.len());
}

/// Where implicit lists are allowed, a value that is neither `nil` nor an
/// array coerces to a list type as the list of one element of its coercion
/// to the element type.
pub proof fn law_implicit_list(
    schema: InputSchema,
    inner: InputType,
    required: bool,
    v: RubyData,
    path: Seq<Seq<char>>,
    wrapped: bool,
    outcomes: Seq<ScalarOutcome>,
)
    requires
        !(v is Nil),
        !(v is Array),
    ensures
        spec_coerce(schema, InputType::List(Box::new(inner), required), v, path, true, wrapped, outcomes)
            == wrap_single(spec_coerce(schema, inner, v, path, true, wrapped, outcomes)),
{
}

/// Coercing a built-in scalar's coerced value again gives the same value.
pub proof fn law_builtin_coercion_idempotent(s: BuiltinScalar, v: RubyData, path: Seq<Seq<char>>)
    ensures
        spec_coerce_builtin(s, v, path) matches Ok(w) ==> spec_coerce_builtin(s, w, path) == Ok::<
            RubyData,
            Seq<(Seq<char>, Seq<Seq<char>>)>,
        >(w),
{
}

/// A path's elements, from the last back to the root: appending an element
/// puts it first.
pub proof fn law_path_append(elements: Seq<ElementView>, e: ElementView)
    ensures
        rendered_reversed(elements.push(e)) == seq![spec_render(e)] + rendered_reversed(elements),
{
    assert(elements.push(e).drop_last() =~= elements);
}

/// The first error reported to a warden is the one it keeps.
pub proof fn law_first_error_wins(held: Option<Seq<char>>, first: Seq<char>, second: Seq<char>)
    requires
        held is None,
    ensures
        after_report(after_report(held, first), second) == Some(first),
{
}

/// Distinct kinds of types have distinct names.
pub proof fn law_kind_names_distinct(a: TypeKind, b: TypeKind)
    ensures
        spec_kind_name(a) == spec_kind_name(b) ==> a == b,
{
    reveal_strlit("SCALAR");
    reveal_strlit("OBJECT");
    reveal_strlit("INTERFACE");
    reveal_strlit("UNION");
    reveal_strlit("ENUM");
    reveal_strlit("INPUT_OBJECT");
    reveal_strlit("LIST");
    reveal_strlit("NON_NULL");
    if spec_kind_name(a) == spec_kind_name(b) && a != b {
        assert(spec_kind_name(a).len() == spec_kind_name(b).len());
        assert(spec_kind_name(a)[0] == spec_kind_name(b)[0]);
        assert(spec_kind_name(a)[1] == spec_kind_name(b)[1]);
    }
}

/// Introspection reports a required type as `NON_NULL`, wrapping the same
/// type made nullable, whose kind is not `NON_NULL`.
pub proof fn law_non_null_wraps_nullable(ty: InputType)
    ensures
        (spec_input_kind(ty) == TypeKind::NonNull) == spec_is_required(ty),
        spec_is_required(ty) ==> (spec_input_of_type(ty) matches Some(t) && !spec_is_required(t) && spec_input_kind(t)
            != TypeKind::NonNull),
{
}

/// The same holds of output types: a required type is reported as
/// `NON_NULL`, wrapping the same type made nullable.
pub proof fn law_output_non_null_wraps_nullable(ty: OutputType)
    ensures
        (spec_output_kind(ty) == TypeKind::NonNull) == spec_output_is_required(ty),
        spec_output_is_required(ty) ==> (spec_output_of_type(ty) matches Some(t) && !spec_output_is_required(t)
            && spec_output_kind(t) != TypeKind::NonNull),
{
}

/// Whether `p` extends `base`.
pub open spec fn extends(p: Seq<Seq<char>>, base: Seq<Seq<char>>) -> bool {
    base.len() <= p.len() && p.subrange(0, base.len() as int) == base
}

/// Every error lies at `base` or below it.
pub open spec fn errors_below(es: Seq<(Seq<char>, Seq<Seq<char>>)>, base: Seq<Seq<char>>) -> bool {
    forall|k: int| 0 <= k < es.len() ==> extends(#[trigger] es[k].1, base)
}

proof fn lemma_below_concat(a: Seq<(Seq<char>, Seq<Seq<char>>)>, b: Seq<(Seq<char>, Seq<Seq<char>>)>, base: Seq<Seq<char>>)
    requires
        errors_below(a, base),
        errors_below(b, base),
    ensures
        errors_below(a + b, base),
{
    assert forall|k: int| 0 <= k < (a + b).len() implies extends(#[trigger] (a + b)[k].1, base) by {
        if k < a.len() {
            assert((a + b)[k] == a[k]);
        } else {
            assert((a + b)[k] == b[k - a.len()]);
        }
    }
}

proof fn lemma_below_push(es: Seq<(Seq<char>, Seq<Seq<char>>)>, base: Seq<Seq<char>>, step: Seq<char>)
    requires
        errors_below(es, base.push(step)),
    ensures
        errors_below(es, base),
{
    assert forall|k: int| 0 <= k < es.len() implies extends(#[trigger] es[k].1, base) by {
        let p = es[k].1;
        assert(extends(p, base.push(step)));
        assert(p.subrange(0, base.len() as int) =~= p.subrange(0, (base.len() + 1) as int).subrange(0, base.len() as int));
        assert(base.push(step).subrange(0, base.len() as int) =~= base);
    }
}

proof fn lemma_one_error_below(m: Seq<char>, base: Seq<Seq<char>>)
    ensures
        errors_below(one_error(m, base), base),
{
    assert(base.subrange(0, base.len() as int) =~= base);
}

proof fn lemma_unknown_keys_below(
    o: crate::input_schema::InputObjectTypeDefinition,
    entries: Seq<(RubyData, RubyData)>,
    path: Seq<Seq<char>>,
    n: nat,
)
    ensures
        crate::input_coercion::spec_unknown_keys(o, entries, path, n) matches Ok(es) ==> errors_below(es, path),
    decreases n,
{
    lemma_one_error_below(Seq::empty(), path);
    if n > 0 {
        lemma_unknown_keys_below(o, entries, path, (n - 1) as nat);
        match crate::input_coercion::spec_unknown_keys(o, entries, path, (n - 1) as nat) {
            Ok(errs) => {
                let key = entries[n - 1].0;
                match key {
                    RubyData::String(k) => {
                        let m = crate::input_coercion::no_field_message(k, o.name@);
                        lemma_one_error_below(m, path);
                        lemma_below_concat(errs, one_error(m, path), path);
                    },
                    _ => {},
                }
            },
            Err(_) => {},
        }
    }
}

/// Every error of a coercion lies at the path of the value coerced, or
/// below it.
pub proof fn law_errors_below_path(
    schema: InputSchema,
    ty: InputType,
    v: RubyData,
    path: Seq<Seq<char>>,
    implicit_list: bool,
    wrapped: bool,
    outcomes: Seq<ScalarOutcome>,
)
    ensures
        spec_coerce(schema, ty, v, path, implicit_list, wrapped, outcomes) matches Ok(Err(es)) ==> errors_below(es, path),
    decreases v, type_depth(ty) + 1, 0nat,
{
    lemma_one_error_below(null_message(), path);
    if !(v is Nil) {
        match ty {
            InputType::Base(base, _) => match base {
                crate::input_schema::BaseInputType::BuiltinScalar(s) => {
                    let r = spec_coerce_builtin(s, v, path);
                    if let Err(es) = r {
                        assert(es.len() == 1);
                        assert(errors_below(es, path)) by {
                            assert(es[0].1 == path);
                            assert(path.subrange(0, path.len() as int) =~= path);
                        }
                    }
                },
                crate::input_schema::BaseInputType::Enum(idx) => {
                    let r = crate::input_coercion::spec_coerce_enum(schema, idx, v, path);
                    if let Err(es) = r {
                        assert(es[0].1 == path);
                        assert(path.subrange(0, path.len() as int) =~= path);
                    }
                },
                crate::input_schema::BaseInputType::CustomScalar(idx) => {
                    let r = crate::input_coercion::spec_coerce_custom_scalar(schema, idx, v, path, outcomes);
                    if let Ok(Err(es)) = r {
                        assert(es[0].1 == path);
                        assert(path.subrange(0, path.len() as int) =~= path);
                    }
                },
                crate::input_schema::BaseInputType::InputObject(idx) => {
                    lemma_input_object_below(schema, idx, v, path, outcomes);
                },
            },
            InputType::List(inner, _) => match v {
                RubyData::Array(items) => {
                    lemma_items_below(schema, *inner, v, path, wrapped, outcomes, items.len());
                },
                _ => {
                    if implicit_list {
                        law_errors_below_path(schema, *inner, v, path, true, wrapped, outcomes);
                    } else {
                        assert(path.subrange(0, path.len() as int) =~= path);
                    }
                },
            },
        }
    }
}

proof fn lemma_items_below(
    schema: InputSchema,
    inner: InputType,
    v: RubyData,
    path: Seq<Seq<char>>,
    wrapped: bool,
    outcomes: Seq<ScalarOutcome>,
    n: nat,
)
    ensures
        spec_coerce_items(schema, inner, v, path, wrapped, outcomes, n) matches Ok((_, errs)) ==> errors_below(errs, path),
    decreases v, 0nat, n,
{
    lemma_below_concat(Seq::empty(), Seq::empty(), path);
    match v {
        RubyData::Array(items) => {
            if n > 0 && n <= items.len() {
                lemma_items_below(schema, inner, v, path, wrapped, outcomes, (n - 1) as nat);
                let step = crate::text::spec_decimal((n - 1) as nat);
                law_errors_below_path(schema, inner, items[n - 1], path.push(step), wrapped, wrapped, outcomes);
                match spec_coerce_items(schema, inner, v, path, wrapped, outcomes, (n - 1) as nat) {
                    Ok((_, errs)) => match spec_coerce(schema, inner, items[n - 1], path.push(step), wrapped, wrapped, outcomes) {
                        Ok(Err(es)) => {
                            lemma_below_push(es, path, step);
                            lemma_below_concat(errs, es, path);
                        },
                        _ => {},
                    },
                    Err(_) => {},
                }
            }
        },
        _ => {},
    }
}

proof fn lemma_fields_below(
    schema: InputSchema,
    idx: usize,
    v: RubyData,
    path: Seq<Seq<char>>,
    outcomes: Seq<ScalarOutcome>,
    n: nat,
)
    ensures
        crate::input_coercion::spec_coerce_fields(schema, idx, v, path, outcomes, n) matches Ok((_, errs))
            ==> errors_below(errs, path),
    decreases v, 0nat, n,
{
    lemma_below_concat(Seq::empty(), Seq::empty(), path);
    let fields = schema.input_objects@[idx as int].input_field_definitions@;
    match v {
        RubyData::Hash(entries) => {
            if n > 0 && n <= fields.len() {
                lemma_fields_below(schema, idx, v, path, outcomes, (n - 1) as nat);
                let ivd = fields[n - 1];
                let state = crate::input_coercion::spec_coerce_fields(schema, idx, v, path, outcomes, (n - 1) as nat);
                let inner_path = path.push(ivd.name@);
                lemma_one_error_below(crate::input_coercion::required_field_message(ivd.name@), path);
                lemma_one_error_below(null_message(), inner_path);
                if let Ok((_, errs)) = state {
                    lemma_below_concat(errs, one_error(crate::input_coercion::required_field_message(ivd.name@), path), path);
                    match crate::input_coercion::hash_index(entries, ivd.name@) {
                        Some(k) => if 0 <= k < entries.len() {
                            law_errors_below_path(schema, ivd.input_type, entries[k].1, inner_path, true, true, outcomes);
                            if let Ok(Err(es)) = spec_coerce(schema, ivd.input_type, entries[k].1, inner_path, true, true, outcomes) {
                                lemma_below_push(es, path, ivd.name@);
                                lemma_below_concat(errs, es, path);
                            }
                        },
                        None => {
                            if let Ok(Err(es)) = spec_coerce_nil(ivd.input_type, inner_path) {
                                lemma_below_push(es, path, ivd.name@);
                                lemma_below_concat(errs, es, path);
                            }
                        },
                    }
                }
            }
        },
        _ => {},
    }
}

proof fn lemma_input_object_below(
    schema: InputSchema,
    idx: usize,
    v: RubyData,
    path: Seq<Seq<char>>,
    outcomes: Seq<ScalarOutcome>,
)
    ensures
        crate::input_coercion::spec_coerce_input_object(schema, idx, v, path, outcomes) matches Ok(Err(es))
            ==> errors_below(es, path),
    decreases v, 0nat, schema.input_objects@[idx as int].input_field_definitions@.len() + 1,
{
    let o = schema.input_objects@[idx as int];
    match v {
        RubyData::Hash(entries) => {
            lemma_fields_below(schema, idx, v, path, outcomes, o.input_field_definitions@.len());
            lemma_unknown_keys_below(o, entries, path, entries.len());
            match crate::input_coercion::spec_coerce_fields(schema, idx, v, path, outcomes, o.input_field_definitions@.len()) {
                Ok((_, errs)) => match crate::input_coercion::spec_unknown_keys(o, entries, path, entries.len()) {
                    Ok(errs2) => {
                        lemma_below_concat(errs, errs2, path);
                    },
                    Err(_) => {},
                },
                Err(_) => {},
            }
        },
        _ => {
            lemma_one_error_below(crate::scalar_coercion::no_implicit_conversion(v, o.name@), path);
        },
    }
}

/// A coercion of a written value that fails reports at least one error.
pub proof fn law_parser_coercion_errors_nonempty(
    schema: InputSchema,
    ty: InputType,
    v: PData,
    path: Seq<Seq<char>>,
    vars: VariablesView,
    implicit_list: bool,
    outcomes: Seq<ScalarOutcome>,
)
    ensures
        spec_coerce_parser(schema, ty, v, path, vars, implicit_list, outcomes) matches Ok(Err(es)) ==> es.len() > 0,
    decreases type_depth(ty),
{
    match v.kind {
        PKind::Null | PKind::Variable(_) => {},
        _ => match ty {
            InputType::List(inner, _) => {
                if !(v.kind is List) && implicit_list {
                    law_parser_coercion_errors_nonempty(schema, *inner, v, path, vars, true, outcomes);
                }
            },
            InputType::Base(base, _) => match base {
                crate::input_schema::BaseInputType::InputObject(idx) => {
                    let r = crate::parser_coercion::spec_coerce_input_object_parser(schema, idx, v, path, vars, outcomes);
                    assert(r matches Ok(Err(es)) ==> es.len() > 0);
                },
                crate::input_schema::BaseInputType::CustomScalar(idx) => {
                    let r = crate::input_coercion::spec_coerce_custom_scalar(
                        schema,
                        idx,
                        crate::parser_coercion::spec_value_from_core(v, vars),
                        path,
                        outcomes,
                    );
                    assert(r matches Ok(Err(es)) ==> es.len() > 0);
                },
                _ => {},
            },
        },
    }
}

/// The number of the first `n` elements of a written list that did not
/// coerce.
pub open spec fn failed_written_items(
    schema: InputSchema,
    inner: InputType,
    v: PData,
    path: Seq<Seq<char>>,
    vars: VariablesView,
    outcomes: Seq<ScalarOutcome>,
    n: nat,
) -> nat
    decreases n,
{
    match v.kind {
        PKind::List(items) => if n == 0 || n > items.len() {
            0
        } else {
            failed_written_items(schema, inner, v, path, vars, outcomes, (n - 1) as nat) + if spec_coerce_parser(
                schema,
                inner,
                items[n - 1],
                path.push(crate::text::spec_decimal((n - 1) as nat)),
                vars,
                false,
                outcomes,
            ) matches Ok(Err(_)) {
                1nat
            } else {
                0nat
            }
        },
        _ => 0,
    }
}

proof fn lemma_written_items_count(
    schema: InputSchema,
    inner: InputType,
    v: PData,
    path: Seq<Seq<char>>,
    vars: VariablesView,
    outcomes: Seq<ScalarOutcome>,
    n: nat,
)
    requires
        v.kind is List,
        n <= v.kind->List_0.len(),
    ensures
        crate::parser_coercion::spec_coerce_parser_items(schema, inner, v, path, vars, outcomes, n) matches Ok(
            (vals, errs),
        ) ==> vals.len() + failed_written_items(schema, inner, v, path, vars, outcomes, n) == n && errs.len()
            >= failed_written_items(schema, inner, v, path, vars, outcomes, n),
    decreases n,
{
    if n > 0 {
        lemma_written_items_count(schema, inner, v, path, vars, outcomes, (n - 1) as nat);
        let items = v.kind->List_0;
        law_parser_coercion_errors_nonempty(
            schema,
            inner,
            items[n - 1],
            path.push(crate::text::spec_decimal((n - 1) as nat)),
            vars,
            false,
            outcomes,
        );
    }
}

/// A written list that coerces to a list type gives a list of as many
/// elements.
pub proof fn law_written_list_keeps_length(
    schema: InputSchema,
    inner: InputType,
    required: bool,
    v: PData,
    path: Seq<Seq<char>>,
    vars: VariablesView,
    implicit_list: bool,
    outcomes: Seq<ScalarOutcome>,
)
    requires
        v.kind is List,
    ensures
        spec_coerce_parser(schema, InputType::List(Box::new(inner), required), v, path, vars, implicit_list, outcomes) matches Ok(
            Ok(RubyData::Array(vals)),
        ) ==> vals.len() == v.kind->List_0.len(),
{
    lemma_written_items_count(schema, inner, v, path, vars, outcomes, v.kind->List_0.len());
}

/// Setting a key in a hash of values: reading that key gives the value
/// set, and every other key reads as before.
pub proof fn law_aset_read_back(h: VariablesView, key: Seq<char>, value: RubyData, other: Seq<char>)
    requires
        other != key,
    ensures
        crate::parser_coercion::var_lookup(crate::engine::spec_aset(h, key, value), key) == Some(value),
        crate::parser_coercion::var_lookup(crate::engine::spec_aset(h, key, value), other)
            == crate::parser_coercion::var_lookup(h, other),
{
    lemma_aset_reads(h, key, value, other);
}

proof fn lemma_first_key_found(h: VariablesView, key: Seq<char>, k: int)
    requires
        0 <= k,
    ensures
        crate::engine::first_key_index(h, key, k) matches Some(i) ==> k <= i < h.len() && h[i].0 == key && forall|j: int|
            k <= j < i ==> h[j].0 != key,
        crate::engine::first_key_index(h, key, k) is None ==> forall|j: int| k <= j < h.len() ==> h[j].0 != key,
    decreases h.len() - k,
{
    if k < h.len() && h[k].0 != key {
        lemma_first_key_found(h, key, k + 1);
    }
}

proof fn lemma_lookup_from(h: VariablesView, key: Seq<char>, k: int)
    requires
        0 <= k,
    ensures
        crate::parser_coercion::var_lookup_from(h, key, k) == match crate::engine::first_key_index(h, key, k) {
            Some(i) => Some(h[i].1),
            None => None::<RubyData>,
        },
    decreases h.len() - k,
{
    if k < h.len() && h[k].0 != key {
        lemma_lookup_from(h, key, k + 1);
    }
}

proof fn lemma_aset_reads(h: VariablesView, key: Seq<char>, value: RubyData, other: Seq<char>)
    requires
        other != key,
    ensures
        crate::parser_coercion::var_lookup(crate::engine::spec_aset(h, key, value), key) == Some(value),
        crate::parser_coercion::var_lookup(crate::engine::spec_aset(h, key, value), other)
            == crate::parser_coercion::var_lookup(h, other),
{
    let h2 = crate::engine::spec_aset(h, key, value);
    lemma_first_key_found(h, key, 0);
    lemma_first_key_found(h2, key, 0);
    lemma_first_key_found(h, other, 0);
    lemma_first_key_found(h2, other, 0);
    lemma_lookup_from(h, key, 0);
    lemma_lookup_from(h2, key, 0);
    lemma_lookup_from(h, other, 0);
    lemma_lookup_from(h2, other, 0);
    match crate::engine::first_key_index(h, key, 0) {
        Some(i) => {
            assert(h2 == h.update(i, (key, value)));
            assert forall|j: int| 0 <= j < h2.len() implies (#[trigger] h2[j]).0 == key <==> h[j].0 == key by {}
            assert forall|j: int| 0 <= j < h2.len() && j != i implies #[trigger] h2[j] == h[j] by {}
        },
        None => {
            assert(h2 == h.push((key, value)));
            assert forall|j: int| 0 <= j < h.len() implies #[trigger] h2[j] == h[j] by {}
        },
    }
    match crate::engine::first_key_index(h2, key, 0) {
        Some(i) => {
            match crate::engine::first_key_index(h, key, 0) {
                Some(i0) => {
                    if i < i0 {
                        assert(h2[i] == h[i]);
                    }
                    if i0 < i {
                        assert(h2[i0].0 == key);
                    }
                },
                None => {
                    if i < h.len() {
                        assert(h2[i] == h[i]);
                    }
                },
            }
        },
        None => {
            match crate::engine::first_key_index(h, key, 0) {
                Some(i0) => {
                    assert(h2[i0].0 == key);
                },
                None => {
                    assert(h2[h.len() as int].0 == key);
                },
            }
        },
    }
    match crate::engine::first_key_index(h, other, 0) {
        Some(i) => {
            assert(h2[i].0 == other);
            match crate::engine::first_key_index(h2, other, 0) {
                Some(i2) => {
                    if i2 < i {
                        assert(h2[i2].0 == other);
                        assert(h[i2].0 != other);
                    }
                },
                None => {},
            }
        },
        None => {
            match crate::engine::first_key_index(h2, other, 0) {
                Some(i2) => {
                    if i2 < h.len() {
                        assert(h2[i2].0 == other);
                    }
                },
                None => {},
            }
        },
    }
}

/// Each group holds fields of its key only, and no two groups have the
/// same key.
pub open spec fn grouped_by_key(g: crate::collect_fields::Grouped) -> bool {
    &&& forall|i: int, j: int|
        0 <= i < g.len() && 0 <= j < g[i].1.len() ==> crate::document::spec_response_key(#[trigger] g[i].1[j]) == g[i].0
    &&& forall|i: int, j: int| 0 <= i < j < g.len() ==> (#[trigger] g[i]).0 != (#[trigger] g[j]).0
}

proof fn lemma_group_index(g: crate::collect_fields::Grouped, key: Seq<char>, k: int)
    requires
        0 <= k,
    ensures
        crate::collect_fields::group_index_from(g, key, k) matches Some(i) ==> k <= i < g.len() && g[i].0 == key,
        crate::collect_fields::group_index_from(g, key, k) is None ==> forall|j: int| k <= j < g.len() ==> g[j].0 != key,
    decreases g.len() - k,
{
    if k < g.len() && g[k].0 != key {
        lemma_group_index(g, key, k + 1);
    }
}

proof fn lemma_group_insert_ok(g: crate::collect_fields::Grouped, key: Seq<char>, fs: Seq<crate::document::Field>)
    requires
        grouped_by_key(g),
        forall|j: int| 0 <= j < fs.len() ==> crate::document::spec_response_key(#[trigger] fs[j]) == key,
    ensures
        grouped_by_key(crate::collect_fields::group_insert(g, key, fs)),
{
    lemma_group_index(g, key, 0);
    let r = crate::collect_fields::group_insert(g, key, fs);
    match crate::collect_fields::group_index_from(g, key, 0) {
        Some(k) => {
            assert forall|i: int, j: int| 0 <= i < r.len() && 0 <= j < r[i].1.len() implies crate::document::spec_response_key(
                #[trigger] r[i].1[j],
            ) == r[i].0 by {
                if i == k {
                    if j < g[k].1.len() {
                        assert(r[i].1[j] == g[k].1[j]);
                    } else {
                        assert(r[i].1[j] == fs[j - g[k].1.len()]);
                    }
                }
            }
        },
        None => {},
    }
}

proof fn lemma_group_merge_ok(g: crate::collect_fields::Grouped, h: crate::collect_fields::Grouped, n: nat)
    requires
        grouped_by_key(g),
        grouped_by_key(h),
    ensures
        grouped_by_key(crate::collect_fields::group_merge(g, h, n)),
    decreases n,
{
    if n > 0 && n <= h.len() {
        lemma_group_merge_ok(g, h, (n - 1) as nat);
        assert forall|j: int| 0 <= j < h[n - 1].1.len() implies crate::document::spec_response_key(
            #[trigger] h[n - 1].1[j],
        ) == h[n - 1].0 by {}
        lemma_group_insert_ok(crate::collect_fields::group_merge(g, h, (n - 1) as nat), h[n - 1].0, h[n - 1].1);
    }
}

/// Collecting fields groups them by response key: each group holds the
/// fields of its key, and each key has one group.
pub proof fn law_fields_grouped_by_key(
    s: crate::output_schema::SchemaDefinition,
    doc: crate::document::ExecutableDocument,
    vars: VariablesView,
    outcomes: Seq<ScalarOutcome>,
    o: int,
    sels: Seq<crate::document::Selection>,
    visited: Set<Seq<char>>,
    n: nat,
)
    ensures
        grouped_by_key(crate::collect_fields::spec_collect_fields(s, doc, vars, outcomes, o, sels, visited, n).0),
    decreases crate::collect_fields::unvisited(
        doc.fragment_definitions@,
        visited,
        doc.fragment_definitions@.len(),
    ), sels, n,
{
    if n > 0 && n <= sels.len() {
        law_fields_grouped_by_key(s, doc, vars, outcomes, o, sels, visited, (n - 1) as nat);
        let prev = crate::collect_fields::spec_collect_fields(s, doc, vars, outcomes, o, sels, visited, (n - 1) as nat);
        let g = prev.0;
        let v = visited.union(prev.1);
        let frags = doc.fragment_definitions@;
        crate::collect_fields::lemma_unvisited_monotone(frags, visited, v, frags.len());
        let sel = sels[n - 1];
        if !crate::collect_fields::spec_left_out(s, crate::collect_fields::selection_directives(sel), vars, outcomes) {
            match sel {
                crate::document::Selection::Field(f) => {
                    lemma_group_insert_ok(g, crate::document::spec_response_key(f), seq![f]);
                },
                crate::document::Selection::FragmentSpread { name, .. } => {
                    if !v.contains(name@) {
                        let v2 = v.insert(name@);
                        match crate::collect_fields::fragment_index_from(frags, name@, 0) {
                            None => {},
                            Some(fi) => {
                                crate::collect_fields::lemma_fragment_index_found(frags, name@, 0);
                                crate::collect_fields::lemma_unvisited_insert(frags, v, name@, fi, frags.len());
                                let frag = frags[fi];
                                law_fields_grouped_by_key(
                                    s,
                                    doc,
                                    vars,
                                    outcomes,
                                    o,
                                    frag.selection_set@,
                                    v2,
                                    frag.selection_set@.len(),
                                );
                                let inner = crate::collect_fields::spec_collect_fields(
                                    s,
                                    doc,
                                    vars,
                                    outcomes,
                                    o,
                                    frag.selection_set@,
                                    v2,
                                    frag.selection_set@.len(),
                                );
                                lemma_group_merge_ok(g, inner.0, inner.0.len());
                            },
                        }
                    }
                },
                crate::document::Selection::InlineFragment { type_condition, selection_set, .. } => {
                    assert(decreases_to!(sels => sel));
                    law_fields_grouped_by_key(s, doc, vars, outcomes, o, selection_set@, v, selection_set@.len());
                    let inner = crate::collect_fields::spec_collect_fields(
                        s,
                        doc,
                        vars,
                        outcomes,
                        o,
                        selection_set@,
                        v,
                        selection_set@.len(),
                    );
                    lemma_group_merge_ok(g, inner.0, inner.0.len());
                },
            }
        }
    }
}

/// Whether the outcomes recorded for two paths are those of one event, or
/// there is none for either.
pub open spec fn same_outcome(outcomes: Seq<ScalarOutcome>, p1: Seq<Seq<char>>, p2: Seq<Seq<char>>) -> bool {
    match (outcome_index(outcomes, p1), outcome_index(outcomes, p2)) {
        (None, None) => true,
        (Some(i), Some(j)) => outcomes[i].event@ == outcomes[j].event@,
        _ => false,
    }
}

/// Whether the outcomes recorded below two paths agree: for every path
/// under the first, the same path under the second has the same outcome.
pub open spec fn same_outcomes_below(outcomes: Seq<ScalarOutcome>, p1: Seq<Seq<char>>, p2: Seq<Seq<char>>) -> bool {
    forall|q: Seq<Seq<char>>| #[trigger] same_outcome(outcomes, p1 + q, p2 + q)
}

/// Two coercions that differ at most in the paths of their errors: both
/// fail, both report as many errors, or both give the same value.
pub open spec fn corresponds(r1: CoercedView, r2: CoercedView) -> bool {
    match (r1, r2) {
        (Ok(Ok(a)), Ok(Ok(b))) => a == b,
        (Ok(Err(e1)), Ok(Err(e2))) => e1.len() == e2.len(),
        (Err(_), Err(_)) => true,
        _ => false,
    }
}

pub open spec fn list_states_correspond(s1: ListState, s2: ListState) -> bool {
    match (s1, s2) {
        (Ok((v1, e1)), Ok((v2, e2))) => v1 == v2 && e1.len() == e2.len(),
        (Err(_), Err(_)) => true,
        _ => false,
    }
}

pub open spec fn args_states_correspond(s1: ArgsState, s2: ArgsState) -> bool {
    match (s1, s2) {
        (Ok((a1, e1)), Ok((a2, e2))) => a1 == a2 && e1.len() == e2.len(),
        (Err(_), Err(_)) => true,
        _ => false,
    }
}

proof fn lemma_outcomes_below_push(outcomes: Seq<ScalarOutcome>, p1: Seq<Seq<char>>, p2: Seq<Seq<char>>, x: Seq<char>)
    requires
        same_outcomes_below(outcomes, p1, p2),
    ensures
        same_outcomes_below(outcomes, p1.push(x), p2.push(x)),
{
    assert forall|q: Seq<Seq<char>>| #[trigger] same_outcome(outcomes, p1.push(x) + q, p2.push(x) + q) by {
        assert(p1.push(x) + q =~= p1 + (seq![x] + q));
        assert(p2.push(x) + q =~= p2 + (seq![x] + q));
        assert(same_outcome(outcomes, p1 + (seq![x] + q), p2 + (seq![x] + q)));
    }
}

proof fn lemma_unknown_keys_count(
    o: InputObjectTypeDefinition,
    fields: Seq<(Seq<char>, PData)>,
    p1: Seq<Seq<char>>,
    p2: Seq<Seq<char>>,
    n: nat,
)
    ensures
        spec_parser_unknown_keys(o, fields, p1, n).len() == spec_parser_unknown_keys(o, fields, p2, n).len(),
    decreases n,
{
    if n > 0 && n <= fields.len() {
        lemma_unknown_keys_count(o, fields, p1, p2, (n - 1) as nat);
    }
}

/// Coercing a written value at two paths whose outcomes agree gives
/// corresponding results: the path shows only in errors.
proof fn lemma_paths_correspond(
    schema: InputSchema,
    ty: InputType,
    v: PData,
    p1: Seq<Seq<char>>,
    p2: Seq<Seq<char>>,
    vars: VariablesView,
    implicit_list: bool,
    outcomes: Seq<ScalarOutcome>,
)
    requires
        same_outcomes_below(outcomes, p1, p2),
    ensures
        corresponds(
            spec_coerce_parser(schema, ty, v, p1, vars, implicit_list, outcomes),
            spec_coerce_parser(schema, ty, v, p2, vars, implicit_list, outcomes),
        ),
    decreases v, type_depth(ty) + 1, 0nat,
{
    let r1 = spec_coerce_parser(schema, ty, v, p1, vars, implicit_list, outcomes);
    let r2 = spec_coerce_parser(schema, ty, v, p2, vars, implicit_list, outcomes);
    match v.kind {
        PKind::Null => {
            assert(corresponds(r1, r2));
        },
        PKind::Variable(name) => {
            assert(corresponds(r1, r2));
        },
        _ => match ty {
            InputType::Base(base, _) => match base {
                BaseInputType::CustomScalar(idx) => {
                    assert(p1 + Seq::<Seq<char>>::empty() =~= p1);
                    assert(p2 + Seq::<Seq<char>>::empty() =~= p2);
                    assert(same_outcome(outcomes, p1 + Seq::<Seq<char>>::empty(), p2 + Seq::<Seq<char>>::empty()));
                    assert(corresponds(r1, r2));
                },
                BaseInputType::InputObject(idx) => {
                    let o1 = crate::parser_coercion::spec_coerce_input_object_parser(schema, idx, v, p1, vars, outcomes);
                    let o2 = crate::parser_coercion::spec_coerce_input_object_parser(schema, idx, v, p2, vars, outcomes);
                    assert(r1 == o1 && r2 == o2);
                    match v.kind {
                        PKind::Object(fields) => {
                            let od = schema.input_objects@[idx as int];
                            let n = od.input_field_definitions@.len();
                            lemma_fields_correspond(schema, idx, v, p1, p2, vars, outcomes, n);
                            lemma_unknown_keys_count(od, fields, p1, p2, fields.len());
                            let f1 = crate::parser_coercion::spec_coerce_parser_fields(schema, idx, v, p1, vars, outcomes, n);
                            let f2 = crate::parser_coercion::spec_coerce_parser_fields(schema, idx, v, p2, vars, outcomes, n);
                            let u1 = spec_parser_unknown_keys(od, fields, p1, fields.len());
                            let u2 = spec_parser_unknown_keys(od, fields, p2, fields.len());
                            match (f1, f2) {
                                (Ok((a1, e1)), Ok((a2, e2))) => {
                                    assert((e1 + u1).len() == (e2 + u2).len());
                                },
                                _ => {},
                            }
                            assert(corresponds(o1, o2));
                        },
                        _ => {
                            assert(corresponds(r1, r2));
                        },
                    }
                },
                BaseInputType::BuiltinScalar(_) => {
                    assert(corresponds(r1, r2));
                },
                BaseInputType::Enum(_) => {
                    assert(corresponds(r1, r2));
                },
            },
            InputType::List(inner, _) => match v.kind {
                PKind::List(l) => {
                    lemma_items_correspond(schema, *inner, v, p1, p2, vars, outcomes, l.len());
                    assert(corresponds(r1, r2));
                },
                _ => {
                    if implicit_list {
                        lemma_paths_correspond(schema, *inner, v, p1, p2, vars, true, outcomes);
                    }
                    assert(corresponds(r1, r2));
                },
            },
        },
    }
}

proof fn lemma_items_correspond(
    schema: InputSchema,
    inner: InputType,
    v: PData,
    p1: Seq<Seq<char>>,
    p2: Seq<Seq<char>>,
    vars: VariablesView,
    outcomes: Seq<ScalarOutcome>,
    n: nat,
)
    requires
        same_outcomes_below(outcomes, p1, p2),
    ensures
        list_states_correspond(
            crate::parser_coercion::spec_coerce_parser_items(schema, inner, v, p1, vars, outcomes, n),
            crate::parser_coercion::spec_coerce_parser_items(schema, inner, v, p2, vars, outcomes, n),
        ),
    decreases v, 0nat, n,
{
    match v.kind {
        PKind::List(l) => if n > 0 && n <= l.len() {
            lemma_items_correspond(schema, inner, v, p1, p2, vars, outcomes, (n - 1) as nat);
            let d = crate::text::spec_decimal((n - 1) as nat);
            lemma_outcomes_below_push(outcomes, p1, p2, d);
            lemma_paths_correspond(schema, inner, l[n - 1], p1.push(d), p2.push(d), vars, false, outcomes);
        },
        _ => {},
    }
}

proof fn lemma_fields_correspond(
    schema: InputSchema,
    idx: usize,
    v: PData,
    p1: Seq<Seq<char>>,
    p2: Seq<Seq<char>>,
    vars: VariablesView,
    outcomes: Seq<ScalarOutcome>,
    n: nat,
)
    requires
        same_outcomes_below(outcomes, p1, p2),
    ensures
        args_states_correspond(
            crate::parser_coercion::spec_coerce_parser_fields(schema, idx, v, p1, vars, outcomes, n),
            crate::parser_coercion::spec_coerce_parser_fields(schema, idx, v, p2, vars, outcomes, n),
        ),
    decreases v, 0nat, n,
{
    let fields = schema.input_objects@[idx as int].input_field_definitions@;
    match v.kind {
        PKind::Object(o) => if n > 0 && n <= fields.len() {
            lemma_fields_correspond(schema, idx, v, p1, p2, vars, outcomes, (n - 1) as nat);
            let ivd = fields[n - 1];
            match crate::parser_coercion::pfield_index(o, ivd.name@) {
                Some(k) => if 0 <= k < o.len() {
                    lemma_outcomes_below_push(outcomes, p1, p2, ivd.name@);
                    lemma_paths_correspond(
                        schema,
                        ivd.input_type,
                        o[k].1,
                        p1.push(ivd.name@),
                        p2.push(ivd.name@),
                        vars,
                        true,
                        outcomes,
                    );
                },
                None => {},
            }
        },
        _ => {},
    }
}

/// A single value written for a list type (neither `null`, a variable nor
/// a list) coerces, with implicit lists allowed, as the one-element list
/// of it does: both succeed, with the one-element array of the value
/// coerced to the element type, or neither does.  Without implicit lists
/// the single value is refused with the error of a conversion to the list
/// type.  Custom scalars' outcomes are found by path, so the outcomes
/// recorded below the value's path and below that of the list's first
/// element are to agree.
pub proof fn law_implicit_list_parser(
    schema: InputSchema,
    b: BaseInputType,
    required: bool,
    list_required: bool,
    x: PData,
    display: Seq<char>,
    path: Seq<Seq<char>>,
    vars: VariablesView,
    outcomes: Seq<ScalarOutcome>,
)
    requires
        !(x.kind is Null),
        !(x.kind is Variable),
        !(x.kind is List),
        same_outcomes_below(outcomes, path, path.push("0"@)),
    ensures
        ({
            let inner = InputType::Base(b, required);
            let ty = InputType::List(Box::new(inner), list_required);
            let element = spec_coerce_parser(schema, inner, x, path, vars, true, outcomes);
            let single = spec_coerce_parser(schema, ty, x, path, vars, true, outcomes);
            let listed = spec_coerce_parser(
                schema,
                ty,
                PData { kind: PKind::List(seq![x]), display },
                path,
                vars,
                true,
                outcomes,
            );
            &&& single == wrap_single(element)
            &&& (single matches Ok(Ok(_))) <==> (listed matches Ok(Ok(_)))
            &&& (single matches Ok(Ok(_))) ==> single == listed
            &&& element matches Ok(Ok(e)) ==> single == Ok::<
                Result<RubyData, Seq<(Seq<char>, Seq<Seq<char>>)>>,
                crate::input_coercion::FailureView,
            >(Ok(RubyData::Array(seq![e]))) && listed == single
            &&& spec_coerce_parser(schema, ty, x, path, vars, false, outcomes) == Ok::<
                Result<RubyData, Seq<(Seq<char>, Seq<Seq<char>>)>>,
                crate::input_coercion::FailureView,
            >(Err(one_error(parser_conversion_message(x, spec_display_name(schema, ty)), path)))
        }),
{
    let inner = InputType::Base(b, required);
    let ty = InputType::List(Box::new(inner), list_required);
    let lv = PData { kind: PKind::List(seq![x]), display };
    let p0 = path.push(crate::text::spec_decimal(0));
    assert(crate::text::spec_decimal(0) == "0"@) by {
        reveal_strlit("0");
    }
    lemma_paths_correspond(schema, inner, x, path, p0, vars, true, outcomes);
    let e0 = spec_coerce_parser(schema, inner, x, p0, vars, false, outcomes);
    assert(e0 == spec_coerce_parser(schema, inner, x, p0, vars, true, outcomes));
    law_parser_coercion_errors_nonempty(schema, inner, x, p0, vars, false, outcomes);
    assert(crate::parser_coercion::spec_coerce_parser_items(schema, inner, lv, path, vars, outcomes, 0) == Ok::<
        (Seq<RubyData>, Seq<(Seq<char>, Seq<Seq<char>>)>),
        crate::input_coercion::FailureView,
    >((Seq::empty(), Seq::empty())));
    assert(crate::parser_coercion::spec_coerce_parser_items(schema, inner, lv, path, vars, outcomes, 1) == list_step(
        Ok((Seq::empty(), Seq::empty())),
        e0,
    ));
    match e0 {
        Ok(Ok(v)) => {
            assert(Seq::<RubyData>::empty().push(v) =~= seq![v]);
        },
        Ok(Err(es)) => {
            assert(Seq::<(Seq<char>, Seq<Seq<char>>)>::empty() + es =~= es);
        },
        Err(_) => {},
    }
}

/// A Ruby value that is neither `nil` nor an array, given for a list type
/// as an input object's field or a default, coerces as the one-element list
/// of it at every depth, and the GraphQL value beside it is the
/// one-element list of the value's own.
pub proof fn law_wrapped_implicit_list(
    schema: InputSchema,
    inner: InputType,
    required: bool,
    v: RubyData,
    path: Seq<Seq<char>>,
    outcomes: Seq<ScalarOutcome>,
)
    requires
        !(v is Nil),
        !(v is Array),
    ensures
        spec_coerce_wrapped(schema, InputType::List(Box::new(inner), required), v, path, outcomes) == match spec_coerce_wrapped(
            schema,
            inner,
            v,
            path,
            outcomes,
        ) {
            Ok(Ok((x, i))) => Ok(Ok((RubyData::Array(seq![x]), InnerData::List(seq![i])))),
            other => other,
        },
{
    law_implicit_list(schema, inner, required, v, path, true, outcomes);
}

} // verus!
