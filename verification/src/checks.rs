//! Checking what execution takes for granted of a schema and a document:
//! that every index a definition holds is in range, that `skip` and
//! `include` are defined, that the uses of directives and the fields'
//! arguments can be answered, and that every variable's type is defined.
//! A caller checks these before it hands the schema and the document to
//! execution.
use vstd::prelude::*;

use crate::collect_fields::{
    conditional_directives_wf, directive_index, directive_ok, directives_ok, doc_ok, find_fragment, fragment_index_from,
    fragment_ok, lemma_spreads_ok_each, reach_ok, selection_ok, selection_refs, selections_ok, spread_ok,
    spreads_ok,
};
use crate::document::FragmentDefinition;
use crate::document::{Argument, ExecutableDirective, ExecutableDocument, Selection};
use crate::engine::{
    argument_answerable, arguments_answerable, find_argument, fragment_target, variable_input_type, variables_typed,
    spec_variable_input_type,
};
use crate::execution::field_arguments_wf;
use crate::input_schema::{BaseInputType, InputSchema, InputType, InputValueDefinition, schema_wf, type_wf};
use crate::output_schema::{
    BaseOutputType, FieldDefinition, OutputType, SchemaDefinition, TypeDefinitionRef, output_type_wf, schema_refs_wf,
};
use crate::requests::operations_typed;
use crate::text::str_eq;

verus! {

/// Whether every definition that an input type names is in the schema.
pub fn input_type_ok(schema: &InputSchema, ty: &InputType) -> (r: bool)
    ensures
        r == type_wf(*schema, *ty),
    decreases ty,
{
    match ty {
        InputType::Base(base, _) => match base {
            BaseInputType::BuiltinScalar(_) => true,
            BaseInputType::CustomScalar(i) => *i < schema.custom_scalars.len(),
            BaseInputType::InputObject(i) => *i < schema.input_objects.len(),
            BaseInputType::Enum(i) => *i < schema.enums.len(),
        },
        InputType::List(inner, _) => input_type_ok(schema, inner),
    }
}

/// Whether every definition that an output type names is in the schema.
pub fn output_type_ok(s: &SchemaDefinition, ty: &OutputType) -> (r: bool)
    ensures
        r == output_type_wf(*s, *ty),
    decreases ty,
{
    match ty {
        OutputType::Base(base, _) => match base {
            BaseOutputType::BuiltinScalar(_) => true,
            BaseOutputType::CustomScalar(i) => *i < s.input.custom_scalars.len(),
            BaseOutputType::Enum(i) => *i < s.input.enums.len(),
            BaseOutputType::Object(i) => *i < s.objects.len(),
            BaseOutputType::Interface(i) => *i < s.interfaces.len(),
            BaseOutputType::Union(i) => *i < s.unions.len(),
        },
        OutputType::List(inner, _) => output_type_ok(s, inner),
    }
}

/// Whether the types of all these input values are in the schema.
pub fn input_values_ok(schema: &InputSchema, defs: &Vec<InputValueDefinition>) -> (r: bool)
    ensures
        r == (forall|j: int| 0 <= j < defs@.len() ==> type_wf(*schema, #[trigger] defs@[j].input_type)),
{
    let mut j: usize = 0;
    while j < defs.len()
        invariant
            j <= defs@.len(),
            forall|i: int| 0 <= i < j ==> type_wf(*schema, #[trigger] defs@[i].input_type),
        decreases defs@.len() - j,
    {
        if !input_type_ok(schema, &defs[j].input_type) {
            return false;
        }
        j = j + 1;
    }
    true
}

/// Whether a schema is one that execution can work with: every index its
/// definitions hold is in range, every type they name is defined, and it
/// defines `skip` and `include`.
pub fn schema_ok(s: &SchemaDefinition) -> (r: bool)
    ensures
        r == (schema_wf(s.input) && schema_refs_wf(*s) && conditional_directives_wf(*s) && field_arguments_wf(*s)),
{
    let mut i: usize = 0;
    while i < s.input.input_objects.len()
        invariant
            i <= s.input.input_objects@.len(),
            forall|a: int, j: int|
                0 <= a < i && 0 <= j < s.input.input_objects@[a].input_field_definitions@.len() ==> type_wf(
                    s.input,
                    #[trigger] s.input.input_objects@[a].input_field_definitions@[j].input_type,
                ),
        decreases s.input.input_objects@.len() - i,
    {
        let defs = &s.input.input_objects[i].input_field_definitions;
        if !input_values_ok(&s.input, defs) {
            proof {
                let j = choose|j: int| 0 <= j < defs@.len() && !type_wf(s.input, #[trigger] defs@[j].input_type);
                assert(!type_wf(s.input, s.input.input_objects@[i as int].input_field_definitions@[j].input_type));
            }
            return false;
        }
        i = i + 1;
    }
    assert(schema_wf(s.input));
    if s.query >= s.objects.len() {
        return false;
    }
    match s.mutation {
        Some(m) => if m >= s.objects.len() {
            return false;
        },
        None => {},
    }
    let mut o: usize = 0;
    while o < s.objects.len()
        invariant
            o <= s.objects@.len(),
            forall|a: int, k: int|
                0 <= a < o && 0 <= k < s.objects@[a].interface_implementations@.len() ==> (
                #[trigger] s.objects@[a].interface_implementations@[k]) < s.interfaces@.len(),
            forall|a: int, f: int|
                0 <= a < o && 0 <= f < s.objects@[a].field_definitions@.len() ==> output_type_wf(
                    *s,
                    #[trigger] s.objects@[a].field_definitions@[f].output_type,
                ),
            forall|a: int, f: int|
                0 <= a < o && 0 <= f < s.objects@[a].field_definitions@.len() ==> crate::engine::arguments_wf(
                    s.input,
                    #[trigger] s.objects@[a].field_definitions@[f],
                ),
        decreases s.objects@.len() - o,
    {
        let ob = &s.objects[o];
        let mut k: usize = 0;
        while k < ob.interface_implementations.len()
            invariant
                o < s.objects@.len(),
                *ob == s.objects@[o as int],
                k <= ob.interface_implementations@.len(),
                forall|b: int| 0 <= b < k ==> (#[trigger] ob.interface_implementations@[b]) < s.interfaces@.len(),
            decreases ob.interface_implementations@.len() - k,
        {
            if ob.interface_implementations[k] >= s.interfaces.len() {
                assert(s.objects@[o as int].interface_implementations@[k as int] >= s.interfaces@.len());
                return false;
            }
            k = k + 1;
        }
        let mut f: usize = 0;
        while f < ob.field_definitions.len()
            invariant
                o < s.objects@.len(),
                *ob == s.objects@[o as int],
                f <= ob.field_definitions@.len(),
                forall|b: int| 0 <= b < f ==> output_type_wf(*s, #[trigger] ob.field_definitions@[b].output_type),
                forall|b: int| 0 <= b < f ==> crate::engine::arguments_wf(s.input, #[trigger] ob.field_definitions@[b]),
            decreases ob.field_definitions@.len() - f,
        {
            if !output_type_ok(s, &ob.field_definitions[f].output_type) {
                assert(!output_type_wf(*s, s.objects@[o as int].field_definitions@[f as int].output_type));
                return false;
            }
            if !input_values_ok(&s.input, &ob.field_definitions[f].argument_definitions) {
                assert(!crate::engine::arguments_wf(s.input, s.objects@[o as int].field_definitions@[f as int]));
                return false;
            }
            f = f + 1;
        }
        o = o + 1;
    }
    let mut u: usize = 0;
    while u < s.unions.len()
        invariant
            u <= s.unions@.len(),
            forall|a: int, k: int|
                0 <= a < u && 0 <= k < s.unions@[a].member_types@.len() ==> (#[trigger] s.unions@[a].member_types@[k])
                    < s.objects@.len(),
        decreases s.unions@.len() - u,
    {
        let un = &s.unions[u];
        let mut k: usize = 0;
        while k < un.member_types.len()
            invariant
                u < s.unions@.len(),
                *un == s.unions@[u as int],
                k <= un.member_types@.len(),
                forall|b: int| 0 <= b < k ==> (#[trigger] un.member_types@[b]) < s.objects@.len(),
            decreases un.member_types@.len() - k,
        {
            if un.member_types[k] >= s.objects.len() {
                assert(s.unions@[u as int].member_types@[k as int] >= s.objects@.len());
                return false;
            }
            k = k + 1;
        }
        u = u + 1;
    }
    assert(schema_refs_wf(*s));
    assert(field_arguments_wf(*s));
    proof {
        reveal_strlit("skip");
        reveal_strlit("include");
    }
    if directive_index(s, "skip").is_none() || directive_index(s, "include").is_none() {
        return false;
    }
    let mut d: usize = 0;
    while d < s.directives.len()
        invariant
            d <= s.directives@.len(),
            forall|a: int, j: int|
                0 <= a < d && 0 <= j < s.directives@[a].arguments_definition@.len() ==> type_wf(
                    s.input,
                    #[trigger] s.directives@[a].arguments_definition@[j].input_type,
                ),
        decreases s.directives@.len() - d,
    {
        let defs = &s.directives[d].arguments_definition;
        if !input_values_ok(&s.input, defs) {
            proof {
                let j = choose|j: int| 0 <= j < defs@.len() && !type_wf(s.input, #[trigger] defs@[j].input_type);
                assert(!type_wf(s.input, s.directives@[d as int].arguments_definition@[j].input_type));
            }
            return false;
        }
        d = d + 1;
    }
    true
}

/// Whether an argument has a value written, a default, or a type that
/// allows none.
pub fn argument_check(def: &InputValueDefinition, args: &Option<Vec<Argument>>) -> (r: bool)
    ensures
        r == argument_answerable(*def, *args),
{
    find_argument(args, def.name.as_str()).is_some() || def.default_value.is_some() || !def.input_type.is_required()
}

/// Whether every argument of the list can be answered.
pub fn arguments_check(defs: &Vec<InputValueDefinition>, args: &Option<Vec<Argument>>) -> (r: bool)
    ensures
        r == (forall|j: int| 0 <= j < defs@.len() ==> argument_answerable(#[trigger] defs@[j], *args)),
{
    let mut j: usize = 0;
    while j < defs.len()
        invariant
            j <= defs@.len(),
            forall|i: int| 0 <= i < j ==> argument_answerable(#[trigger] defs@[i], *args),
        decreases defs@.len() - j,
    {
        if !argument_check(&defs[j], args) {
            return false;
        }
        j = j + 1;
    }
    true
}

/// Whether every argument of a field can be answered from the arguments
/// written for it.
pub fn field_arguments_check(fd: &FieldDefinition, args: &Option<Vec<Argument>>) -> (r: bool)
    ensures
        r == arguments_answerable(*fd, *args),
{
    arguments_check(&fd.argument_definitions, args)
}

/// Whether a use of a directive that execution reads can be answered.
pub fn directive_check(s: &SchemaDefinition, d: &ExecutableDirective) -> (r: bool)
    requires
        conditional_directives_wf(*s),
    ensures
        r == directive_ok(*s, *d),
{
    proof {
        reveal_strlit("skip");
        reveal_strlit("include");
    }
    if !(str_eq(d.name.as_str(), "skip") || str_eq(d.name.as_str(), "include")) {
        return true;
    }
    match directive_index(s, d.name.as_str()) {
        Some(k) => {
            proof {
                crate::collect_fields::lemma_directive_index_found(s.directives@, d.name@, 0);
            }
            arguments_check(&s.directives[k].arguments_definition, &d.arguments)
        },
        None => false,
    }
}

/// Whether every use of a directive in the list can be answered.
pub fn directives_check(s: &SchemaDefinition, dirs: &Vec<ExecutableDirective>) -> (r: bool)
    requires
        conditional_directives_wf(*s),
    ensures
        r == directives_ok(*s, dirs@),
{
    let mut k: usize = 0;
    while k < dirs.len()
        invariant
            conditional_directives_wf(*s),
            k <= dirs@.len(),
            forall|i: int| 0 <= i < k ==> directive_ok(*s, #[trigger] dirs@[i]),
        decreases dirs@.len() - k,
    {
        if !directive_check(s, &dirs[k]) {
            return false;
        }
        k = k + 1;
    }
    true
}

/// Whether a type name names a type that fragments may target.
pub fn fragment_target_check(s: &SchemaDefinition, name: &str) -> (r: bool)
    ensures
        r == fragment_target(*s, name@),
{
    match s.type_definition(name) {
        Some(TypeDefinitionRef::Object(_)) | Some(TypeDefinitionRef::Interface(_)) | Some(
            TypeDefinitionRef::Union(_),
        ) => true,
        _ => false,
    }
}

/// Whether a selection, and every selection inside it, is one execution
/// can work with.
pub fn selection_check(s: &SchemaDefinition, sel: &Selection) -> (r: bool)
    requires
        conditional_directives_wf(*s),
    ensures
        r == selection_ok(*s, *sel),
    decreases sel, 0nat,
{
    match sel {
        Selection::Field(f) => {
            if !directives_check(s, &f.directives) {
                return false;
            }
            match &f.selection_set {
                Some(ss) => selections_check(s, ss),
                None => true,
            }
        },
        Selection::FragmentSpread { directives, .. } => directives_check(s, directives),
        Selection::InlineFragment { type_condition, directives, selection_set } => {
            if !directives_check(s, directives) {
                return false;
            }
            let target = match type_condition {
                Some(tc) => fragment_target_check(s, tc.as_str()),
                None => true,
            };
            target && selections_check(s, selection_set)
        },
    }
}

/// Whether every selection of the list is one execution can work with.
pub fn selections_check(s: &SchemaDefinition, sels: &Vec<Selection>) -> (r: bool)
    requires
        conditional_directives_wf(*s),
    ensures
        r == selections_ok(*s, sels@, sels@.len()),
    decreases sels@, 1nat,
{
    let mut k: usize = 0;
    while k < sels.len()
        invariant
            conditional_directives_wf(*s),
            k <= sels@.len(),
            selections_ok(*s, sels@, k as nat),
        decreases sels@.len() - k,
    {
        if !selection_check(s, &sels[k]) {
            proof {
                if selections_ok(*s, sels@, sels@.len()) {
                    crate::collect_fields::lemma_selections_ok_each(*s, sels@, sels@.len(), k as int);
                }
            }
            return false;
        }
        k = k + 1;
    }
    true
}

/// Whether every selection of a list of references is one execution can
/// work with.
pub fn selection_refs_check(s: &SchemaDefinition, sels: &Vec<&Selection>) -> (r: bool)
    requires
        conditional_directives_wf(*s),
    ensures
        r == selections_ok(*s, selection_refs(sels@), sels@.len()),
{
    let ghost refs = selection_refs(sels@);
    let mut k: usize = 0;
    while k < sels.len()
        invariant
            conditional_directives_wf(*s),
            refs == selection_refs(sels@),
            k <= sels@.len(),
            selections_ok(*s, refs, k as nat),
        decreases sels@.len() - k,
    {
        assert(refs[k as int] == *sels@[k as int]);
        if !selection_check(s, sels[k]) {
            proof {
                if selections_ok(*s, refs, sels@.len()) {
                    crate::collect_fields::lemma_selections_ok_each(*s, refs, sels@.len(), k as int);
                }
            }
            return false;
        }
        k = k + 1;
    }
    true
}

/// Whether every fragment definition of the document targets a type
/// fragments may target and has selections execution can work with.
pub fn document_check(s: &SchemaDefinition, doc: &ExecutableDocument) -> (r: bool)
    requires
        conditional_directives_wf(*s),
    ensures
        r == doc_ok(*s, *doc),
{
    let mut i: usize = 0;
    while i < doc.fragment_definitions.len()
        invariant
            conditional_directives_wf(*s),
            i <= doc.fragment_definitions@.len(),
            forall|a: int|
                0 <= a < i ==> fragment_target(*s, (#[trigger] doc.fragment_definitions@[a]).type_condition@)
                    && selections_ok(
                    *s,
                    doc.fragment_definitions@[a].selection_set@,
                    doc.fragment_definitions@[a].selection_set@.len(),
                ),
        decreases doc.fragment_definitions@.len() - i,
    {
        let fd = &doc.fragment_definitions[i];
        if !(fragment_target_check(s, fd.type_condition.as_str()) && selections_check(s, &fd.selection_set)) {
            return false;
        }
        i = i + 1;
    }
    true
}

/// Whether every variable of every operation of the document has a type
/// whose named type the schema defines as an input type.
pub fn operations_typed_check(s: &SchemaDefinition, doc: &ExecutableDocument) -> (r: bool)
    ensures
        r == operations_typed(*s, *doc),
{
    let mut k: usize = 0;
    while k < doc.operation_definitions.len()
        invariant
            k <= doc.operation_definitions@.len(),
            forall|a: int|
                0 <= a < k ==> ((#[trigger] doc.operation_definitions@[a]).variable_definitions matches Some(defs)
                    ==> variables_typed(*s, defs@)),
        decreases doc.operation_definitions@.len() - k,
    {
        match &doc.operation_definitions[k].variable_definitions {
            Some(defs) => {
                let mut j: usize = 0;
                while j < defs.len()
                    invariant
                        k < doc.operation_definitions@.len(),
                        doc.operation_definitions@[k as int].variable_definitions == Some(*defs),
                        j <= defs@.len(),
                        forall|b: int| 0 <= b < j ==> (#[trigger] spec_variable_input_type(*s, defs@[b].variable_type)) is Some,
                    decreases defs@.len() - j,
                {
                    if variable_input_type(s, &defs[j].variable_type).is_none() {
                        proof {
                            assert(!variables_typed(*s, defs@));
                            assert(doc.operation_definitions@[k as int].variable_definitions matches Some(d) && !variables_typed(*s, d@));
                        }
                        return false;
                    }
                    j = j + 1;
                }
            },
            None => {},
        }
        k = k + 1;
    }
    true
}

/// Whether a fragment targets a type fragments may target and has
/// selections execution can work with.
pub fn fragment_check(s: &SchemaDefinition, f: &FragmentDefinition) -> (r: bool)
    requires
        conditional_directives_wf(*s),
    ensures
        r == fragment_ok(*s, *f),
{
    fragment_target_check(s, f.type_condition.as_str()) && selections_check(s, &f.selection_set)
}

/// Whether every fragment spread inside a selection names a fragment whose
/// entry in `ok` is true, where `ok` tells, fragment by fragment, whether
/// execution can work with it.
fn spread_check(s: &SchemaDefinition, doc: &ExecutableDocument, ok: &Vec<bool>, sel: &Selection) -> (r: bool)
    requires
        ok@.len() == doc.fragment_definitions@.len(),
        forall|k: int| 0 <= k < ok@.len() ==> ok@[k] == fragment_ok(*s, #[trigger] doc.fragment_definitions@[k]),
    ensures
        r == spread_ok(*s, doc.fragment_definitions@, *sel),
    decreases sel, 0nat,
{
    match sel {
        Selection::Field(f) => match &f.selection_set {
            Some(ss) => spreads_check(s, doc, ok, ss),
            None => true,
        },
        Selection::FragmentSpread { name, .. } => match find_fragment(doc, name.as_str()) {
            Some(k) => {
                proof {
                    crate::collect_fields::lemma_fragment_index_found(doc.fragment_definitions@, name@, 0);
                }
                ok[k]
            },
            None => true,
        },
        Selection::InlineFragment { selection_set, .. } => spreads_check(s, doc, ok, selection_set),
    }
}

fn spreads_check(s: &SchemaDefinition, doc: &ExecutableDocument, ok: &Vec<bool>, sels: &Vec<Selection>) -> (r: bool)
    requires
        ok@.len() == doc.fragment_definitions@.len(),
        forall|k: int| 0 <= k < ok@.len() ==> ok@[k] == fragment_ok(*s, #[trigger] doc.fragment_definitions@[k]),
    ensures
        r == spreads_ok(*s, doc.fragment_definitions@, sels@, sels@.len()),
    decreases sels@, 1nat,
{
    let mut k: usize = 0;
    while k < sels.len()
        invariant
            ok@.len() == doc.fragment_definitions@.len(),
            forall|j: int| 0 <= j < ok@.len() ==> ok@[j] == fragment_ok(*s, #[trigger] doc.fragment_definitions@[j]),
            k <= sels@.len(),
            spreads_ok(*s, doc.fragment_definitions@, sels@, k as nat),
        decreases sels@.len() - k,
    {
        if !spread_check(s, doc, ok, &sels[k]) {
            proof {
                if spreads_ok(*s, doc.fragment_definitions@, sels@, sels@.len()) {
                    lemma_spreads_ok_each(*s, doc.fragment_definitions@, sels@, sels@.len(), k as int);
                }
            }
            return false;
        }
        k = k + 1;
    }
    true
}

/// Whether every fragment that the selections reach is one execution can
/// work with (see [`reach_ok`]).
pub fn reach_check(s: &SchemaDefinition, doc: &ExecutableDocument, sels: &Vec<Selection>) -> (r: bool)
    requires
        conditional_directives_wf(*s),
    ensures
        r == reach_ok(*s, *doc, sels@),
{
    let ghost frags = doc.fragment_definitions@;
    let mut ok: Vec<bool> = Vec::new();
    let mut k: usize = 0;
    while k < doc.fragment_definitions.len()
        invariant
            conditional_directives_wf(*s),
            frags == doc.fragment_definitions@,
            k <= frags.len(),
            ok@.len() == k,
            forall|j: int| 0 <= j < k ==> ok@[j] == fragment_ok(*s, #[trigger] frags[j]),
        decreases frags.len() - k,
    {
        let b = fragment_check(s, &doc.fragment_definitions[k]);
        ok.push(b);
        k = k + 1;
    }
    if !spreads_check(s, doc, &ok, sels) {
        return false;
    }
    let mut k: usize = 0;
    while k < doc.fragment_definitions.len()
        invariant
            frags == doc.fragment_definitions@,
            ok@.len() == frags.len(),
            forall|j: int| 0 <= j < ok@.len() ==> ok@[j] == fragment_ok(*s, #[trigger] frags[j]),
            k <= frags.len(),
            forall|j: int|
                0 <= j < k && fragment_ok(*s, #[trigger] frags[j]) ==> spreads_ok(
                    *s,
                    frags,
                    frags[j].selection_set@,
                    frags[j].selection_set@.len(),
                ),
        decreases frags.len() - k,
    {
        if ok[k] && !spreads_check(s, doc, &ok, &doc.fragment_definitions[k].selection_set) {
            return false;
        }
        k = k + 1;
    }
    true
}

/// Whether every variable of an operation has a type whose named type the
/// schema defines as an input type.
pub fn operation_typed_check(s: &SchemaDefinition, op: &crate::document::OperationDefinition) -> (r: bool)
    ensures
        r == crate::requests::operation_typed(*s, *op),
{
    match &op.variable_definitions {
        Some(defs) => {
            let mut j: usize = 0;
            while j < defs.len()
                invariant
                    op.variable_definitions == Some(*defs),
                    j <= defs@.len(),
                    forall|b: int| 0 <= b < j ==> (#[trigger] spec_variable_input_type(*s, defs@[b].variable_type)) is Some,
                decreases defs@.len() - j,
            {
                if variable_input_type(s, &defs[j].variable_type).is_none() {
                    proof {
                        assert(!variables_typed(*s, defs@));
                    }
                    return false;
                }
                j = j + 1;
            }
            true
        },
        None => true,
    }
}

} // verus!
