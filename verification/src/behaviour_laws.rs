//! What the main operations do, stated over their inputs: which selections
//! `skip` and `include` leave out, which value a variable and an input
//! object's field take, what a written string coerces to, and which
//! resolver values a built-in scalar accepts as results.
use vstd::prelude::*;

use crate::collect_fields::{
    Grouped, group_insert, selection_directives, spec_collect_fields, spec_directive_if, spec_included_by,
    spec_left_out, spec_skipped_by,
};
use crate::document::{ExecutableDirective, ExecutableDocument, Field, OperationDefinition, Selection, spec_response_key};
use crate::engine::{
    VarsState, absorb_variable, spec_aset, spec_coerce_variables, spec_get_variable_values, spec_variable_input_type,
};
use crate::input_coercion::{ScalarOutcome, args_step, hash_index, spec_coerce, spec_coerce_fields};
use crate::input_schema::{BaseInputType, InputSchema, InputType};
use crate::output_schema::SchemaDefinition;
use crate::parser_coercion::{VariablesView, spec_coerce_builtin_parser, spec_coerce_parser, spec_value_from_core, var_lookup};
use crate::parser_value::{PData, PKind};
use crate::result_coercion::spec_builtin_result_ok;
use crate::ruby_value::RubyData;
use crate::scalar::BuiltinScalar;

verus! {

/// Whether one of the first `n` directives is a `skip` whose condition is
/// true.
pub open spec fn some_skip_true(
    s: SchemaDefinition,
    dirs: Seq<ExecutableDirective>,
    vars: VariablesView,
    outcomes: Seq<ScalarOutcome>,
    n: int,
) -> bool {
    exists|k: int|
        0 <= k < n && dirs[k].name@ == "skip"@ && #[trigger] spec_directive_if(s, dirs[k], vars, outcomes) == Some(
            true,
        )
}

/// Whether one of the first `n` directives is an `include` whose condition
/// is false.
pub open spec fn some_include_false(
    s: SchemaDefinition,
    dirs: Seq<ExecutableDirective>,
    vars: VariablesView,
    outcomes: Seq<ScalarOutcome>,
    n: int,
) -> bool {
    exists|k: int|
        0 <= k < n && dirs[k].name@ == "include"@ && #[trigger] spec_directive_if(s, dirs[k], vars, outcomes) == Some(
            false,
        )
}

proof fn lemma_skipped(
    s: SchemaDefinition,
    dirs: Seq<ExecutableDirective>,
    vars: VariablesView,
    outcomes: Seq<ScalarOutcome>,
    n: nat,
)
    requires
        n <= dirs.len(),
    ensures
        spec_skipped_by(s, dirs, vars, outcomes, n) <==> some_skip_true(s, dirs, vars, outcomes, n as int),
    decreases n,
{
    if n > 0 {
        lemma_skipped(s, dirs, vars, outcomes, (n - 1) as nat);
        if some_skip_true(s, dirs, vars, outcomes, n as int) {
            let k = choose|k: int|
                0 <= k < n && dirs[k].name@ == "skip"@ && #[trigger] spec_directive_if(s, dirs[k], vars, outcomes)
                    == Some(true);
            if k < n - 1 {
                assert(some_skip_true(s, dirs, vars, outcomes, n - 1));
            }
        }
        if some_skip_true(s, dirs, vars, outcomes, n - 1) {
            let k = choose|k: int|
                0 <= k < n - 1 && dirs[k].name@ == "skip"@ && #[trigger] spec_directive_if(s, dirs[k], vars, outcomes)
                    == Some(true);
            assert(0 <= k < n);
        }
        if dirs[n - 1].name@ == "skip"@ && spec_directive_if(s, dirs[n - 1], vars, outcomes) == Some(true) {
            assert(some_skip_true(s, dirs, vars, outcomes, n as int));
        }
    }
}

proof fn lemma_included(
    s: SchemaDefinition,
    dirs: Seq<ExecutableDirective>,
    vars: VariablesView,
    outcomes: Seq<ScalarOutcome>,
    n: nat,
)
    requires
        n <= dirs.len(),
    ensures
        spec_included_by(s, dirs, vars, outcomes, n) <==> !some_include_false(s, dirs, vars, outcomes, n as int),
    decreases n,
{
    if n > 0 {
        lemma_included(s, dirs, vars, outcomes, (n - 1) as nat);
        if some_include_false(s, dirs, vars, outcomes, n as int) {
            let k = choose|k: int|
                0 <= k < n && dirs[k].name@ == "include"@ && #[trigger] spec_directive_if(s, dirs[k], vars, outcomes)
                    == Some(false);
            if k < n - 1 {
                assert(some_include_false(s, dirs, vars, outcomes, n - 1));
            }
        }
        if some_include_false(s, dirs, vars, outcomes, n - 1) {
            let k = choose|k: int|
                0 <= k < n - 1 && dirs[k].name@ == "include"@ && #[trigger] spec_directive_if(
                    s,
                    dirs[k],
                    vars,
                    outcomes,
                ) == Some(false);
            assert(0 <= k < n);
        }
        if dirs[n - 1].name@ == "include"@ && spec_directive_if(s, dirs[n - 1], vars, outcomes) == Some(false) {
            assert(some_include_false(s, dirs, vars, outcomes, n as int));
        }
    }
}

/// A selection is left out exactly when one of its directives is a `skip`
/// whose condition is true or an `include` whose condition is false.
pub proof fn law_left_out_by_conditions(
    s: SchemaDefinition,
    dirs: Seq<ExecutableDirective>,
    vars: VariablesView,
    outcomes: Seq<ScalarOutcome>,
)
    ensures
        spec_left_out(s, dirs, vars, outcomes) <==> (some_skip_true(s, dirs, vars, outcomes, dirs.len() as int)
            || some_include_false(s, dirs, vars, outcomes, dirs.len() as int)),
{
    lemma_skipped(s, dirs, vars, outcomes, dirs.len());
    lemma_included(s, dirs, vars, outcomes, dirs.len());
}

/// A selection whose one directive is `include` is kept exactly when its
/// condition is true, and one whose one directive is `skip` exactly when
/// its condition is false.
pub proof fn law_single_condition(
    s: SchemaDefinition,
    d: ExecutableDirective,
    vars: VariablesView,
    outcomes: Seq<ScalarOutcome>,
    b: bool,
)
    requires
        spec_directive_if(s, d, vars, outcomes) == Some(b),
    ensures
        d.name@ == "include"@ ==> (spec_left_out(s, seq![d], vars, outcomes) <==> !b),
        d.name@ == "skip"@ ==> (spec_left_out(s, seq![d], vars, outcomes) <==> b),
{
    reveal_strlit("include");
    reveal_strlit("skip");
    assert("include"@ != "skip"@) by {
        assert("include"@.len() != "skip"@.len());
    }
    law_left_out_by_conditions(s, seq![d], vars, outcomes);
    let dirs = seq![d];
    assert(dirs[0] == d);
    if d.name@ == "include"@ && !b {
        assert(some_include_false(s, dirs, vars, outcomes, 1));
    }
    if d.name@ == "skip"@ && b {
        assert(some_skip_true(s, dirs, vars, outcomes, 1));
    }
}

/// Collecting a single field selection on an object groups the field under
/// its response key when its directives keep it, and groups nothing when
/// they leave it out: with `include(if: true)` the field is collected, with
/// `include(if: false)` it is not.
pub proof fn law_collect_single_field(
    s: SchemaDefinition,
    doc: ExecutableDocument,
    vars: VariablesView,
    outcomes: Seq<ScalarOutcome>,
    o: int,
    f: Field,
    visited: Set<Seq<char>>,
)
    ensures
        spec_collect_fields(s, doc, vars, outcomes, o, seq![Selection::Field(f)], visited, 1).0 == if spec_left_out(
            s,
            f.directives@,
            vars,
            outcomes,
        ) {
            Seq::<(Seq<char>, Seq<Field>)>::empty()
        } else {
            group_insert(Seq::empty(), spec_response_key(f), seq![f])
        },
{
    let sels = seq![Selection::Field(f)];
    assert(sels[0] == Selection::Field(f));
    assert(selection_directives(sels[0]) == f.directives@);
    let prev = spec_collect_fields(s, doc, vars, outcomes, o, sels, visited, 0);
    assert(prev == (Seq::<(Seq<char>, Seq<Field>)>::empty(), visited));
    assert(visited.union(prev.1) =~= visited);
}

/// The state after the `n`-th variable of an operation, where the request
/// gives it a value: the given value, coerced to the variable's type, whatever
/// default the variable declares.
pub proof fn law_given_variable_value_wins(
    s: SchemaDefinition,
    defs: Seq<crate::document::VariableDefinition>,
    given: VariablesView,
    outcomes: Seq<ScalarOutcome>,
    n: nat,
    v: RubyData,
)
    requires
        0 < n <= defs.len(),
        var_lookup(given, defs[n - 1].name@) == Some(v),
    ensures
        spec_coerce_variables(s, defs, given, outcomes, n) == absorb_variable(
            spec_coerce_variables(s, defs, given, outcomes, (n - 1) as nat),
            defs[n - 1].name@,
            spec_coerce(
                s.input,
                spec_variable_input_type(s, defs[n - 1].variable_type)->Some_0,
                v,
                seq![defs[n - 1].name@],
                true,
                false,
                outcomes,
            ),
        ),
{
}

/// An operation with one variable for which the request gives a value that
/// coerces to `c` has exactly that variable, with the value `c`, whatever
/// default it declares.
pub proof fn law_single_variable_given(
    s: SchemaDefinition,
    op: OperationDefinition,
    given: VariablesView,
    outcomes: Seq<ScalarOutcome>,
    v: RubyData,
    c: RubyData,
)
    requires
        op.variable_definitions matches Some(defs) && defs@.len() == 1 && var_lookup(given, defs@[0].name@) == Some(v)
            && spec_coerce(
            s.input,
            spec_variable_input_type(s, defs@[0].variable_type)->Some_0,
            v,
            seq![defs@[0].name@],
            true,
            false,
            outcomes,
        ) == Ok::<Result<RubyData, Seq<(Seq<char>, Seq<Seq<char>>)>>, crate::input_coercion::FailureView>(Ok(c)),
    ensures
        spec_get_variable_values(s, op, given, outcomes) == Ok::<
            Result<VariablesView, Seq<crate::engine::ExecutionErrorKind>>,
            crate::input_coercion::FailureView,
        >(Ok(seq![(op.variable_definitions->0@[0].name@, c)])),
{
    let defs = op.variable_definitions->0@;
    law_given_variable_value_wins(s, defs, given, outcomes, 1, v);
    assert(spec_aset(Seq::empty(), defs[0].name@, c) =~= seq![(defs[0].name@, c)]);
}

/// The state after the `n`-th field of an input object, where the hash
/// gives the field a value: the given value, coerced to the field's type,
/// under the field's Ruby keyword, whatever default the field declares.
pub proof fn law_given_field_value_wins(
    schema: InputSchema,
    idx: usize,
    entries: Seq<(RubyData, RubyData)>,
    path: Seq<Seq<char>>,
    outcomes: Seq<ScalarOutcome>,
    n: nat,
    k: int,
)
    requires
        0 < n <= schema.input_objects@[idx as int].input_field_definitions@.len(),
        hash_index(entries, schema.input_objects@[idx as int].input_field_definitions@[n - 1].name@) == Some(k),
        0 <= k < entries.len(),
    ensures
        ({
            let ivd = schema.input_objects@[idx as int].input_field_definitions@[n - 1];
            spec_coerce_fields(schema, idx, RubyData::Hash(entries), path, outcomes, n) == args_step(
                spec_coerce_fields(schema, idx, RubyData::Hash(entries), path, outcomes, (n - 1) as nat),
                ivd.ruby_name@,
                spec_coerce(schema, ivd.input_type, entries[k].1, path.push(ivd.name@), true, true, outcomes),
            )
        }),
{
}

/// A string written in a document coerces, to `String` as to `ID`, to the
/// Ruby string of its content, and stands for that string where it is
/// handed to Ruby as written; the text printed for it plays no part.
pub proof fn law_written_string(
    schema: InputSchema,
    v: PData,
    t: Seq<char>,
    path: Seq<Seq<char>>,
    vars: VariablesView,
    implicit_list: bool,
    required: bool,
    outcomes: Seq<ScalarOutcome>,
)
    requires
        v.kind == PKind::String(t),
    ensures
        spec_coerce_builtin_parser(BuiltinScalar::String, v, path) == Ok::<
            RubyData,
            Seq<(Seq<char>, Seq<Seq<char>>)>,
        >(RubyData::String(t)),
        spec_coerce_builtin_parser(BuiltinScalar::ID, v, path) == Ok::<RubyData, Seq<(Seq<char>, Seq<Seq<char>>)>>(
            RubyData::String(t),
        ),
        spec_coerce_parser(
            schema,
            InputType::Base(BaseInputType::BuiltinScalar(BuiltinScalar::String), required),
            v,
            path,
            vars,
            implicit_list,
            outcomes,
        ) == Ok::<Result<RubyData, Seq<(Seq<char>, Seq<Seq<char>>)>>, crate::input_coercion::FailureView>(
            Ok(RubyData::String(t)),
        ),
        spec_value_from_core(v, vars) == RubyData::String(t),
{
}

/// A resolver's value is a valid `String` result exactly when it is a Ruby
/// string, a valid `Boolean` result exactly when it is `true` or `false`,
/// and a valid `Int` result exactly when it is an Integer within 32 signed
/// bits.
pub proof fn law_builtin_results(v: RubyData)
    ensures
        spec_builtin_result_ok(BuiltinScalar::String, v) <==> v is String,
        spec_builtin_result_ok(BuiltinScalar::Boolean, v) <==> v is Boolean,
        spec_builtin_result_ok(BuiltinScalar::Int, v) <==> (v matches RubyData::Integer(i) && -0x8000_0000 <= i
            <= 0x7fff_ffff),
        spec_builtin_result_ok(BuiltinScalar::ID, v) <==> (v is String || (v matches RubyData::Integer(i)
            && -0x8000_0000 <= i <= 0x7fff_ffff)),
{
}

/// No resolver value is a valid result of both `String` and a number type:
/// an integer or a float is never accepted for a `String` field.
pub proof fn law_string_results_are_not_numbers(v: RubyData)
    ensures
        spec_builtin_result_ok(BuiltinScalar::String, v) ==> !spec_builtin_result_ok(BuiltinScalar::Int, v)
            && !spec_builtin_result_ok(BuiltinScalar::Float, v),
{
}

/// The state after the `n`-th variable of an operation, where the request
/// gives it no value: its declared default, coerced to its type, where it
/// declares one; otherwise, for a required type, the error that names the
/// variable, and for a nullable type, `nil`.
pub proof fn law_absent_variable(
    s: SchemaDefinition,
    defs: Seq<crate::document::VariableDefinition>,
    given: VariablesView,
    outcomes: Seq<ScalarOutcome>,
    n: nat,
)
    requires
        0 < n <= defs.len(),
        var_lookup(given, defs[n - 1].name@) is None,
    ensures
        ({
            let vd = defs[n - 1];
            let name = vd.name@;
            let ty = spec_variable_input_type(s, vd.variable_type)->Some_0;
            let before = spec_coerce_variables(s, defs, given, outcomes, (n - 1) as nat);
            let after = spec_coerce_variables(s, defs, given, outcomes, n);
            &&& vd.default_value matches Some(d) ==> after == absorb_variable(
                before,
                name,
                spec_coerce_parser(s.input, ty, d@, seq![name], Seq::empty(), true, outcomes),
            )
            &&& (vd.default_value is None && crate::input_schema::spec_is_required(ty)) ==> after == match before {
                Err(f) => Err(f),
                Ok((vars, errs)) => Ok(
                    (vars, errs.push(crate::engine::ExecutionErrorKind::RequiredVariableMissingValue { name })),
                ),
            }
            &&& (vd.default_value is None && !crate::input_schema::spec_is_required(ty)) ==> after == absorb_variable(
                before,
                name,
                spec_coerce(s.input, ty, RubyData::Nil, seq![name], true, false, outcomes),
            )
        }),
{
}

/// The state after the `n`-th field of an input object, where the hash
/// gives the field no value: its default where it declares one; otherwise,
/// for a required type, the error that names the field, and for a nullable
/// type, `nil`.
pub proof fn law_absent_field(
    schema: InputSchema,
    idx: usize,
    entries: Seq<(RubyData, RubyData)>,
    path: Seq<Seq<char>>,
    outcomes: Seq<ScalarOutcome>,
    n: nat,
)
    requires
        0 < n <= schema.input_objects@[idx as int].input_field_definitions@.len(),
        hash_index(entries, schema.input_objects@[idx as int].input_field_definitions@[n - 1].name@) is None,
    ensures
        ({
            let ivd = schema.input_objects@[idx as int].input_field_definitions@[n - 1];
            let before = spec_coerce_fields(schema, idx, RubyData::Hash(entries), path, outcomes, (n - 1) as nat);
            let after = spec_coerce_fields(schema, idx, RubyData::Hash(entries), path, outcomes, n);
            &&& ivd.default_value matches Some(d) ==> after == args_step(before, ivd.ruby_name@, Ok(Ok(d@)))
            &&& (ivd.default_value is None && crate::input_schema::spec_is_required(ivd.input_type)) ==> after
                == match before {
                Err(f) => Err(f),
                Ok((args, errs)) => Ok(
                    (args, errs + crate::scalar_coercion::one_error(
                        crate::input_coercion::required_field_message(ivd.name@),
                        path,
                    )),
                ),
            }
            &&& (ivd.default_value is None && !crate::input_schema::spec_is_required(ivd.input_type)) ==> after
                == args_step(before, ivd.ruby_name@, Ok(Ok(RubyData::Nil)))
        }),
{
}

} // verus!
