//! Collecting the fields that a selection set selects on an object type,
//! grouped by their keys in the response.
use vstd::prelude::*;

use crate::coercion_error::strings_view;
use crate::definitions::DirectiveDefinition;
use crate::document::{
    ExecutableDirective, ExecutableDocument, Field, FragmentDefinition, Selection, spec_response_key,
};
use crate::engine::{
    coerce_arguments, does_fragment_type_apply, exec_errors_view, fragment_target, spec_coerce_arguments,
    spec_does_fragment_type_apply,
};
use crate::parser_coercion::find_variable;
use crate::input_coercion::ScalarOutcome;
use crate::input_schema::{schema_wf, type_wf};
use crate::output_schema::{SchemaDefinition, schema_refs_wf};
use crate::parser_coercion::{VariablesView, var_lookup, vars_view};
use crate::ruby_value::{RubyData, RubyValue};
use crate::text::str_eq;

verus! {

/// Whether Ruby counts a value as true: all but `nil` and `false`.
pub open spec fn truthy(v: RubyData) -> bool {
    match v {
        RubyData::Nil => false,
        RubyData::Boolean(b) => b,
        _ => true,
    }
}

/// The index of the schema's first directive definition of this name.
pub open spec fn directive_index_from(defs: Seq<DirectiveDefinition>, name: Seq<char>, k: int) -> Option<int>
    decreases defs.len() - k,
{
    if k < 0 || k >= defs.len() {
        None
    } else if defs[k].name@ == name {
        Some(k)
    } else {
        directive_index_from(defs, name, k + 1)
    }
}

/// The schema defines the `skip` and `include` directives, with argument
/// types of its own.
pub open spec fn conditional_directives_wf(s: SchemaDefinition) -> bool {
    &&& directive_index_from(s.directives@, "skip"@, 0) is Some
    &&& directive_index_from(s.directives@, "include"@, 0) is Some
    &&& forall|d: int, j: int|
        0 <= d < s.directives@.len() && 0 <= j < s.directives@[d].arguments_definition@.len() ==> type_wf(
            s.input,
            #[trigger] s.directives@[d].arguments_definition@[j].input_type,
        )
}

/// Every argument of the directive definition can be answered for this use
/// of it.
pub open spec fn directive_answerable(def: DirectiveDefinition, d: ExecutableDirective) -> bool {
    forall|j: int|
        0 <= j < def.arguments_definition@.len() ==> crate::engine::argument_answerable(
            #[trigger] def.arguments_definition@[j],
            d.arguments,
        )
}

/// What `if_arg` of a use of a directive gives, where its arguments
/// coerce: the value of its argument received as `if_arg`, counted as
/// Ruby counts truth.  `None` where the arguments do not coerce.
pub open spec fn spec_directive_if(
    s: SchemaDefinition,
    d: ExecutableDirective,
    vars: VariablesView,
    outcomes: Seq<ScalarOutcome>,
) -> Option<bool> {
    let def = s.directives@[directive_index_from(s.directives@, d.name@, 0)->Some_0];
    match spec_coerce_arguments(s.input, def.arguments_definition@, d.arguments, vars, outcomes, def.arguments_definition@.len()) {
        Ok((kw, errs)) => if errs.len() == 0 {
            Some(
                match var_lookup(kw, "if_arg"@) {
                    Some(v) => truthy(v),
                    None => false,
                },
            )
        } else {
            None
        },
        Err(_) => None,
    }
}

/// Whether one of the first `n` directives is a `skip` whose condition
/// holds.
pub open spec fn spec_skipped_by(
    s: SchemaDefinition,
    dirs: Seq<ExecutableDirective>,
    vars: VariablesView,
    outcomes: Seq<ScalarOutcome>,
    n: nat,
) -> bool
    decreases n,
{
    if n == 0 || n > dirs.len() {
        false
    } else {
        spec_skipped_by(s, dirs, vars, outcomes, (n - 1) as nat) || (dirs[n - 1].name@ == "skip"@ && spec_directive_if(
            s,
            dirs[n - 1],
            vars,
            outcomes,
        ) == Some(true))
    }
}

/// Whether each of the first `n` directives that is an `include` has a
/// condition that holds or arguments that do not coerce.
pub open spec fn spec_included_by(
    s: SchemaDefinition,
    dirs: Seq<ExecutableDirective>,
    vars: VariablesView,
    outcomes: Seq<ScalarOutcome>,
    n: nat,
) -> bool
    decreases n,
{
    if n == 0 || n > dirs.len() {
        true
    } else {
        spec_included_by(s, dirs, vars, outcomes, (n - 1) as nat) && (dirs[n - 1].name@ != "include"@
            || spec_directive_if(s, dirs[n - 1], vars, outcomes) != Some(false))
    }
}

/// Whether a selection with these directives is left out.
pub open spec fn spec_left_out(
    s: SchemaDefinition,
    dirs: Seq<ExecutableDirective>,
    vars: VariablesView,
    outcomes: Seq<ScalarOutcome>,
) -> bool {
    spec_skipped_by(s, dirs, vars, outcomes, dirs.len()) || !spec_included_by(s, dirs, vars, outcomes, dirs.len())
}

/// The directives of a selection.
pub open spec fn selection_directives(sel: Selection) -> Seq<ExecutableDirective> {
    match sel {
        Selection::Field(f) => f.directives@,
        Selection::FragmentSpread { directives, .. } => directives@,
        Selection::InlineFragment { directives, .. } => directives@,
    }
}

/// Fields grouped by response key, in the order each key first occurs.
pub type Grouped = Seq<(Seq<char>, Seq<Field>)>;

pub open spec fn group_index_from(g: Grouped, key: Seq<char>, k: int) -> Option<int>
    decreases g.len() - k,
{
    if k < 0 || k >= g.len() {
        None
    } else if g[k].0 == key {
        Some(k)
    } else {
        group_index_from(g, key, k + 1)
    }
}

/// The groups with `fields` added at the end of the group of `key`.
pub open spec fn group_insert(g: Grouped, key: Seq<char>, fields: Seq<Field>) -> Grouped {
    match group_index_from(g, key, 0) {
        Some(k) => g.update(k, (key, g[k].1 + fields)),
        None => g.push((key, fields)),
    }
}

/// The groups with the first `n` groups of `h` added in order.
pub open spec fn group_merge(g: Grouped, h: Grouped, n: nat) -> Grouped
    decreases n,
{
    if n == 0 || n > h.len() {
        g
    } else {
        group_insert(group_merge(g, h, (n - 1) as nat), h[n - 1].0, h[n - 1].1)
    }
}

/// The number of fragment definitions whose names are not in `visited`.
pub open spec fn unvisited(frags: Seq<FragmentDefinition>, visited: Set<Seq<char>>, k: nat) -> nat
    decreases k,
{
    if k == 0 || k > frags.len() {
        0
    } else {
        unvisited(frags, visited, (k - 1) as nat) + if visited.contains(frags[k - 1].name@) {
            0nat
        } else {
            1nat
        }
    }
}

pub proof fn lemma_unvisited_monotone(frags: Seq<FragmentDefinition>, a: Set<Seq<char>>, b: Set<Seq<char>>, k: nat)
    requires
        a.subset_of(b),
        k <= frags.len(),
    ensures
        unvisited(frags, b, k) <= unvisited(frags, a, k),
    decreases k,
{
    if k > 0 {
        lemma_unvisited_monotone(frags, a, b, (k - 1) as nat);
    }
}

pub proof fn lemma_unvisited_insert(frags: Seq<FragmentDefinition>, a: Set<Seq<char>>, name: Seq<char>, i: int, k: nat)
    requires
        !a.contains(name),
        0 <= i < k <= frags.len(),
        frags[i].name@ == name,
    ensures
        unvisited(frags, a.insert(name), k) < unvisited(frags, a, k),
    decreases k,
{
    if i < k - 1 {
        lemma_unvisited_insert(frags, a, name, i, (k - 1) as nat);
    } else {
        lemma_unvisited_monotone(frags, a, a.insert(name), (k - 1) as nat);
    }
}

/// The index of the first fragment definition of this name.
pub open spec fn fragment_index_from(frags: Seq<FragmentDefinition>, name: Seq<char>, k: int) -> Option<int>
    decreases frags.len() - k,
{
    if k < 0 || k >= frags.len() {
        None
    } else if frags[k].name@ == name {
        Some(k)
    } else {
        fragment_index_from(frags, name, k + 1)
    }
}

pub proof fn lemma_fragment_index_found(frags: Seq<FragmentDefinition>, name: Seq<char>, k: int)
    ensures
        fragment_index_from(frags, name, k) matches Some(i) ==> 0 <= i < frags.len() && frags[i].name@ == name,
    decreases frags.len() - k,
{
    if 0 <= k < frags.len() && frags[k].name@ != name {
        lemma_fragment_index_found(frags, name, k + 1);
    }
}

/// The fields that the first `n` selections select on the object type `o`,
/// grouped by response key, and the names of the fragments spread so far.
/// A selection that `skip` or `include` leaves out selects nothing; a
/// fragment is spread once, where its type condition applies to `o`; an
/// inline fragment applies where it has no type condition or one that
/// applies to `o`.
pub open spec fn spec_collect_fields(
    s: SchemaDefinition,
    doc: ExecutableDocument,
    vars: VariablesView,
    outcomes: Seq<ScalarOutcome>,
    o: int,
    sels: Seq<Selection>,
    visited: Set<Seq<char>>,
    n: nat,
) -> (Grouped, Set<Seq<char>>)
    decreases unvisited(doc.fragment_definitions@, visited, doc.fragment_definitions@.len()), sels, n,
{
    if n == 0 || n > sels.len() {
        (Seq::empty(), visited)
    } else {
        let prev = spec_collect_fields(s, doc, vars, outcomes, o, sels, visited, (n - 1) as nat);
        let g = prev.0;
        let v = visited.union(prev.1);
        let frags = doc.fragment_definitions@;
        proof {
            lemma_unvisited_monotone(frags, visited, v, frags.len());
        }
        let sel = sels[n - 1];
        if spec_left_out(s, selection_directives(sel), vars, outcomes) {
            (g, v)
        } else {
            match sel {
                Selection::Field(f) => (group_insert(g, spec_response_key(f), seq![f]), v),
                Selection::FragmentSpread { name, .. } => if v.contains(name@) {
                    (g, v)
                } else {
                    let v2 = v.insert(name@);
                    match fragment_index_from(frags, name@, 0) {
                        None => (g, v2),
                        Some(fi) => {
                            proof {
                                lemma_fragment_index_found(frags, name@, 0);
                                lemma_unvisited_insert(frags, v, name@, fi, frags.len());
                            }
                            let frag = frags[fi];
                            if !spec_does_fragment_type_apply(s, o, frag.type_condition@) {
                                (g, v2)
                            } else {
                                let inner = spec_collect_fields(
                                    s,
                                    doc,
                                    vars,
                                    outcomes,
                                    o,
                                    frag.selection_set@,
                                    v2,
                                    frag.selection_set@.len(),
                                );
                                (group_merge(g, inner.0, inner.0.len()), v2.union(inner.1))
                            }
                        },
                    }
                },
                Selection::InlineFragment { type_condition, selection_set, .. } => if type_condition matches Some(
                    tc,
                ) && !spec_does_fragment_type_apply(s, o, tc@) {
                    (g, v)
                } else {
                    proof {
                        assert(decreases_to!(sels => sel));
                    }
                    let inner = spec_collect_fields(
                        s,
                        doc,
                        vars,
                        outcomes,
                        o,
                        selection_set@,
                        v,
                        selection_set@.len(),
                    );
                    (group_merge(g, inner.0, inner.0.len()), v.union(inner.1))
                },
            }
        }
    }
}

/// The index of the schema's first directive definition of this name.
pub fn directive_index(s: &SchemaDefinition, name: &str) -> (r: Option<usize>)
    ensures
        match r {
            Some(k) => directive_index_from(s.directives@, name@, 0) == Some(k as int),
            None => directive_index_from(s.directives@, name@, 0) is None,
        },
{
    let mut k: usize = 0;
    while k < s.directives.len()
        invariant
            k <= s.directives@.len(),
            directive_index_from(s.directives@, name@, 0) == directive_index_from(s.directives@, name@, k as int),
        decreases s.directives@.len() - k,
    {
        if str_eq(s.directives[k].name.as_str(), name) {
            return Some(k);
        }
        k = k + 1;
    }
    None
}

pub proof fn lemma_directive_index_found(defs: Seq<DirectiveDefinition>, name: Seq<char>, k: int)
    ensures
        directive_index_from(defs, name, k) matches Some(i) ==> 0 <= i < defs.len() && defs[i].name@ == name,
    decreases defs.len() - k,
{
    if 0 <= k < defs.len() && defs[k].name@ != name {
        lemma_directive_index_found(defs, name, k + 1);
    }
}

/// A use of a directive whose condition execution reads, `skip` or
/// `include`, has arguments that can be answered.
pub open spec fn directive_ok(s: SchemaDefinition, d: ExecutableDirective) -> bool {
    (d.name@ == "skip"@ || d.name@ == "include"@) ==> directive_answerable(
        s.directives@[directive_index_from(s.directives@, d.name@, 0)->Some_0],
        d,
    )
}

pub open spec fn directives_ok(s: SchemaDefinition, dirs: Seq<ExecutableDirective>) -> bool {
    forall|k: int| 0 <= k < dirs.len() ==> directive_ok(s, #[trigger] dirs[k])
}

/// What `if_arg` of a use of `skip` or `include` gives, where its
/// arguments coerce.
pub fn directive_if(
    s: &SchemaDefinition,
    d: &ExecutableDirective,
    vars: &Vec<(String, RubyValue)>,
    outcomes: &Vec<ScalarOutcome>,
) -> (r: Option<bool>)
    requires
        schema_wf(s.input),
        conditional_directives_wf(*s),
        directive_index_from(s.directives@, d.name@, 0) is Some,
        directive_answerable(s.directives@[directive_index_from(s.directives@, d.name@, 0)->Some_0], *d),
    ensures
        r == spec_directive_if(*s, *d, vars_view(vars@), outcomes@),
{
    proof {
        lemma_directive_index_found(s.directives@, d.name@, 0);
    }
    let k = match directive_index(s, d.name.as_str()) {
        Some(k) => k,
        None => {
            return None;
        },
    };
    let def = &s.directives[k];
    proof {
        assert forall|j: int| 0 <= j < def.arguments_definition@.len() implies type_wf(
            s.input,
            #[trigger] def.arguments_definition@[j].input_type,
        ) by {
            assert(type_wf(s.input, s.directives@[k as int].arguments_definition@[j].input_type));
        }
        assert forall|j: int| 0 <= j < def.arguments_definition@.len() implies crate::engine::argument_answerable(
            #[trigger] def.arguments_definition@[j],
            d.arguments,
        ) by {}
    }
    match coerce_arguments(&s.input, &def.arguments_definition, &d.arguments, vars, outcomes) {
        Ok((kw, errs)) => if errs.len() == 0 {
            proof {
                reveal_strlit("if_arg");
            }
            match find_variable(&kw, "if_arg") {
                Some(i) => Some(
                    match &kw[i].1 {
                        RubyValue::Nil => false,
                        RubyValue::Boolean(b) => *b,
                        _ => true,
                    },
                ),
                None => Some(false),
            }
        } else {
            proof {
                assert(exec_errors_view(errs@).len() == errs@.len());
            }
            None
        },
        Err(_) => None,
    }
}

/// Whether a selection with these directives is left out.
pub fn left_out(
    s: &SchemaDefinition,
    dirs: &Vec<ExecutableDirective>,
    vars: &Vec<(String, RubyValue)>,
    outcomes: &Vec<ScalarOutcome>,
) -> (r: bool)
    requires
        schema_wf(s.input),
        conditional_directives_wf(*s),
        directives_ok(*s, dirs@),
    ensures
        r == spec_left_out(*s, dirs@, vars_view(vars@), outcomes@),
{
    let ghost vv = vars_view(vars@);
    proof {
        reveal_strlit("skip");
        reveal_strlit("include");
        assert("skip"@.len() != "include"@.len());
    }
    let mut skipped = false;
    let mut included = true;
    let mut k: usize = 0;
    while k < dirs.len()
        invariant
            k <= dirs@.len(),
            vv == vars_view(vars@),
            schema_wf(s.input),
            conditional_directives_wf(*s),
            directives_ok(*s, dirs@),
            skipped == spec_skipped_by(*s, dirs@, vv, outcomes@, k as nat),
            included == spec_included_by(*s, dirs@, vv, outcomes@, k as nat),
        decreases dirs@.len() - k,
    {
        let d = &dirs[k];
        proof {
            assert(directive_ok(*s, dirs@[k as int]));
            reveal_strlit("skip");
            reveal_strlit("include");
            assert("skip"@.len() != "include"@.len());
        }
        if str_eq(d.name.as_str(), "skip") {
            if let Some(true) = directive_if(s, d, vars, outcomes) {
                skipped = true;
            }
        } else if str_eq(d.name.as_str(), "include") {
            if let Some(false) = directive_if(s, d, vars, outcomes) {
                included = false;
            }
        }
        k = k + 1;
    }
    skipped || !included
}

/// The fields behind a list of references.
pub open spec fn field_refs(v: Seq<&Field>) -> Seq<Field> {
    v.map_values(|f: &Field| *f)
}

/// The selections behind a list of references.
pub open spec fn selection_refs(v: Seq<&Selection>) -> Seq<Selection> {
    v.map_values(|x: &Selection| *x)
}

/// The content of a list of groups of fields.
pub open spec fn grouped_view<'a>(g: Seq<(String, Vec<&'a Field>)>) -> Grouped {
    g.map_values(|e: (String, Vec<&'a Field>)| (e.0@, field_refs(e.1@)))
}

/// The names in a list of fragment names, as a set.
pub open spec fn name_set(v: Seq<String>) -> Set<Seq<char>> {
    strings_view(v).to_set()
}

/// Adds `fields` at the end of the group of `key`, or as a new group.
fn group_insert_into<'a>(g: &mut Vec<(String, Vec<&'a Field>)>, key: &str, fields: &Vec<&'a Field>)
    ensures
        grouped_view(final(g)@) == group_insert(grouped_view(old(g)@), key@, field_refs(fields@)),
{
    let ghost gv = grouped_view(g@);
    let mut k: usize = 0;
    while k < g.len()
        invariant
            k <= g.len(),
            gv == grouped_view(g@),
            g@ == old(g)@,
            group_index_from(gv, key@, 0) == group_index_from(gv, key@, k as int),
        decreases g.len() - k,
    {
        if str_eq(g[k].0.as_str(), key) {
            let mut merged: Vec<&'a Field> = Vec::new();
            let mut i: usize = 0;
            while i < g[k].1.len()
                invariant
                    k < g.len(),
                    i <= g@[k as int].1@.len(),
                    field_refs(merged@) == field_refs(g@[k as int].1@.subrange(0, i as int)),
                decreases g@[k as int].1@.len() - i,
            {
                let f = g[k].1[i];
                proof {
                    assert(field_refs(g@[k as int].1@.subrange(0, i + 1)) =~= field_refs(
                        g@[k as int].1@.subrange(0, i as int),
                    ).push(*f));
                    assert(field_refs(merged@.push(f)) =~= field_refs(merged@).push(*f));
                }
                merged.push(f);
                i = i + 1;
            }
            let mut j: usize = 0;
            let ghost old_part = field_refs(g@[k as int].1@);
            proof {
                assert(g@[k as int].1@.subrange(0, i as int) =~= g@[k as int].1@);
                assert(fields@.subrange(0, 0) =~= Seq::<&Field>::empty());
                assert(field_refs(merged@) =~= old_part + field_refs(fields@.subrange(0, 0)));
            }
            while j < fields.len()
                invariant
                    j <= fields@.len(),
                    field_refs(merged@) == old_part + field_refs(fields@.subrange(0, j as int)),
                decreases fields@.len() - j,
            {
                let f = fields[j];
                proof {
                    assert(field_refs(fields@.subrange(0, j + 1)) =~= field_refs(fields@.subrange(0, j as int)).push(
                        *f,
                    ));
                    assert(field_refs(merged@.push(f)) =~= field_refs(merged@).push(*f));
                }
                merged.push(f);
                j = j + 1;
            }
            proof {
                assert(fields@.subrange(0, j as int) =~= fields@);
            }
            let ghost mv = field_refs(merged@);
            g.set(k, (String::from_str(key), merged));
            proof {
                assert(grouped_view(g@) =~= gv.update(k as int, (key@, mv)));
            }
            return;
        }
        k = k + 1;
    }
    let mut copy: Vec<&'a Field> = Vec::new();
    let mut j: usize = 0;
    while j < fields.len()
        invariant
            j <= fields@.len(),
            field_refs(copy@) == field_refs(fields@.subrange(0, j as int)),
        decreases fields@.len() - j,
    {
        let f = fields[j];
        proof {
            assert(field_refs(fields@.subrange(0, j + 1)) =~= field_refs(fields@.subrange(0, j as int)).push(*f));
            assert(field_refs(copy@.push(f)) =~= field_refs(copy@).push(*f));
        }
        copy.push(f);
        j = j + 1;
    }
    proof {
        assert(fields@.subrange(0, j as int) =~= fields@);
    }
    let ghost cv = field_refs(copy@);
    g.push((String::from_str(key), copy));
    proof {
        assert(grouped_view(g@) =~= gv.push((key@, cv)));
    }
}

/// Adds the groups of `h`, in order, to `g`.
fn group_merge_into<'a>(g: &mut Vec<(String, Vec<&'a Field>)>, h: &Vec<(String, Vec<&'a Field>)>)
    ensures
        grouped_view(final(g)@) == group_merge(grouped_view(old(g)@), grouped_view(h@), h@.len()),
{
    let ghost g0 = grouped_view(g@);
    let mut i: usize = 0;
    while i < h.len()
        invariant
            i <= h@.len(),
            grouped_view(g@) == group_merge(g0, grouped_view(h@), i as nat),
        decreases h@.len() - i,
    {
        group_insert_into(g, h[i].0.as_str(), &h[i].1);
        i = i + 1;
    }
}

/// Whether the list of fragment names holds `name`.
fn visited_contains(v: &Vec<String>, name: &str) -> (r: bool)
    ensures
        r == name_set(v@).contains(name@),
{
    let mut k: usize = 0;
    while k < v.len()
        invariant
            k <= v.len(),
            forall|j: int| 0 <= j < k ==> v@[j]@ != name@,
        decreases v.len() - k,
    {
        if str_eq(v[k].as_str(), name) {
            proof {
                assert(strings_view(v@)[k as int] == name@);
            }
            return true;
        }
        k = k + 1;
    }
    proof {
        if name_set(v@).contains(name@) {
            let j = choose|j: int| 0 <= j < strings_view(v@).len() && strings_view(v@)[j] == name@;
            assert(v@[j]@ == name@);
        }
    }
    false
}

/// References to the selections of a selection set.
fn refs_of<'a>(v: &'a Vec<Selection>) -> (r: Vec<&'a Selection>)
    ensures
        selection_refs(r@) == v@,
{
    let mut out: Vec<&'a Selection> = Vec::new();
    let mut i: usize = 0;
    while i < v.len()
        invariant
            i <= v.len(),
            selection_refs(out@) == v@.subrange(0, i as int),
        decreases v.len() - i,
    {
        proof {
            assert(v@.subrange(0, i + 1) =~= v@.subrange(0, i as int).push(v@[i as int]));
            assert(selection_refs(out@.push(&v[i as int])) =~= selection_refs(out@).push(v@[i as int]));
        }
        out.push(&v[i]);
        i = i + 1;
    }
    proof {
        assert(v@.subrange(0, i as int) =~= v@);
    }
    out
}

/// The first `n` selections, and the selections inside them, use `skip`
/// and `include` in ways execution can answer, and their type conditions
/// name types that fragments may target.
pub open spec fn selections_ok(s: SchemaDefinition, sels: Seq<Selection>, n: nat) -> bool
    decreases sels, n,
{
    if n == 0 || n > sels.len() {
        true
    } else {
        selections_ok(s, sels, (n - 1) as nat) && selection_ok(s, sels[n - 1])
    }
}

pub open spec fn selection_ok(s: SchemaDefinition, sel: Selection) -> bool
    decreases sel, 0nat,
{
    match sel {
        Selection::Field(f) => directives_ok(s, f.directives@) && match f.selection_set {
            Some(ss) => selections_ok(s, ss@, ss@.len()),
            None => true,
        },
        Selection::FragmentSpread { directives, .. } => directives_ok(s, directives@),
        Selection::InlineFragment { type_condition, directives, selection_set } => directives_ok(s, directives@)
            && match type_condition {
            Some(tc) => fragment_target(s, tc@),
            None => true,
        } && selections_ok(s, selection_set@, selection_set@.len()),
    }
}

/// Every fragment definition of the document targets a type that fragments
/// may target, and its selections are as `selections_ok` asks.
pub open spec fn doc_ok(s: SchemaDefinition, doc: ExecutableDocument) -> bool {
    forall|i: int|
        0 <= i < doc.fragment_definitions@.len() ==> fragment_target(
            s,
            (#[trigger] doc.fragment_definitions@[i]).type_condition@,
        ) && selections_ok(s, doc.fragment_definitions@[i].selection_set@, doc.fragment_definitions@[i].selection_set@.len())
}

/// A fragment definition that targets a type fragments may target and
/// has selections execution can work with.
pub open spec fn fragment_ok(s: SchemaDefinition, f: FragmentDefinition) -> bool {
    fragment_target(s, f.type_condition@) && selections_ok(s, f.selection_set@, f.selection_set@.len())
}

/// Whether the fragment that a spread names, if the document defines one,
/// is one execution can work with.
pub open spec fn spread_target_ok(s: SchemaDefinition, frags: Seq<FragmentDefinition>, name: Seq<char>) -> bool {
    match fragment_index_from(frags, name, 0) {
        Some(k) => fragment_ok(s, frags[k]),
        None => true,
    }
}

/// Whether every fragment spread inside the first `n` selections, at any
/// depth, names a fragment execution can work with.
pub open spec fn spreads_ok(s: SchemaDefinition, frags: Seq<FragmentDefinition>, sels: Seq<Selection>, n: nat) -> bool
    decreases sels, n,
{
    if n == 0 || n > sels.len() {
        true
    } else {
        spreads_ok(s, frags, sels, (n - 1) as nat) && spread_ok(s, frags, sels[n - 1])
    }
}

pub open spec fn spread_ok(s: SchemaDefinition, frags: Seq<FragmentDefinition>, sel: Selection) -> bool
    decreases sel, 0nat,
{
    match sel {
        Selection::Field(f) => match f.selection_set {
            Some(ss) => spreads_ok(s, frags, ss@, ss@.len()),
            None => true,
        },
        Selection::FragmentSpread { name, .. } => spread_target_ok(s, frags, name@),
        Selection::InlineFragment { selection_set, .. } => spreads_ok(s, frags, selection_set@, selection_set@.len()),
    }
}

/// Whether every fragment that the selections reach, through their
/// spreads and the spreads of the fragments those name, is one execution
/// can work with.  Of the document's fragments, those that execution can
/// work with are to spread only such fragments; the others are not looked
/// at unless a selection reaches them.
pub open spec fn reach_ok(s: SchemaDefinition, doc: ExecutableDocument, sels: Seq<Selection>) -> bool {
    let frags = doc.fragment_definitions@;
    &&& spreads_ok(s, frags, sels, sels.len())
    &&& forall|k: int|
        0 <= k < frags.len() && fragment_ok(s, #[trigger] frags[k]) ==> spreads_ok(
            s,
            frags,
            frags[k].selection_set@,
            frags[k].selection_set@.len(),
        )
}

pub proof fn lemma_spreads_ok_each(s: SchemaDefinition, frags: Seq<FragmentDefinition>, sels: Seq<Selection>, n: nat, k: int)
    requires
        spreads_ok(s, frags, sels, n),
        0 <= k < n <= sels.len(),
    ensures
        spread_ok(s, frags, sels[k]),
    decreases n,
{
    if k < n - 1 {
        lemma_spreads_ok_each(s, frags, sels, (n - 1) as nat, k);
    }
}

pub proof fn lemma_selections_ok_each(s: SchemaDefinition, sels: Seq<Selection>, n: nat, k: int)
    requires
        selections_ok(s, sels, n),
        0 <= k < n <= sels.len(),
    ensures
        selection_ok(s, sels[k]),
    decreases n,
{
    if k < n - 1 {
        lemma_selections_ok_each(s, sels, (n - 1) as nat, k);
    }
}

/// The index of the first fragment definition of this name.
pub(crate) fn find_fragment(doc: &ExecutableDocument, name: &str) -> (r: Option<usize>)
    ensures
        match r {
            Some(k) => fragment_index_from(doc.fragment_definitions@, name@, 0) == Some(k as int),
            None => fragment_index_from(doc.fragment_definitions@, name@, 0) is None,
        },
{
    let mut k: usize = 0;
    while k < doc.fragment_definitions.len()
        invariant
            k <= doc.fragment_definitions@.len(),
            fragment_index_from(doc.fragment_definitions@, name@, 0) == fragment_index_from(
                doc.fragment_definitions@,
                name@,
                k as int,
            ),
        decreases doc.fragment_definitions@.len() - k,
    {
        if str_eq(doc.fragment_definitions[k].name.as_str(), name) {
            return Some(k);
        }
        k = k + 1;
    }
    None
}

/// Collects the fields that the selections select on the object type `o`,
/// grouped by response key; `visited` holds the names of the fragments
/// spread so far, and gains those this call spreads.
pub fn collect_fields<'a>(
    s: &SchemaDefinition,
    doc: &'a ExecutableDocument,
    vars: &Vec<(String, RubyValue)>,
    outcomes: &Vec<ScalarOutcome>,
    o: usize,
    sels: &Vec<&'a Selection>,
    visited: &mut Vec<String>,
) -> (r: Vec<(String, Vec<&'a Field>)>)
    requires
        schema_wf(s.input),
        schema_refs_wf(*s),
        conditional_directives_wf(*s),
        o < s.objects@.len(),
        reach_ok(*s, *doc, selection_refs(sels@)),
        selections_ok(*s, selection_refs(sels@), sels@.len()),
    ensures
        (grouped_view(r@), name_set(final(visited)@)) == spec_collect_fields(
            *s,
            *doc,
            vars_view(vars@),
            outcomes@,
            o as int,
            selection_refs(sels@),
            name_set(old(visited)@),
            sels@.len(),
        ),
        name_set(old(visited)@).subset_of(name_set(final(visited)@)),
    decreases unvisited(doc.fragment_definitions@, name_set(old(visited)@), doc.fragment_definitions@.len()), selection_refs(
        sels@,
    ),
{
    let ghost v0 = name_set(visited@);
    let ghost frags = doc.fragment_definitions@;
    let ghost vv = vars_view(vars@);
    let ghost all = selection_refs(sels@);
    let mut g: Vec<(String, Vec<&'a Field>)> = Vec::new();
    proof {
        assert(grouped_view(g@) =~= Seq::<(Seq<char>, Seq<Field>)>::empty());
    }
    let mut i: usize = 0;
    while i < sels.len()
        invariant
            i <= sels@.len(),
            v0 == name_set(old(visited)@),
            frags == doc.fragment_definitions@,
            vv == vars_view(vars@),
            all == selection_refs(sels@),
            schema_wf(s.input),
            schema_refs_wf(*s),
            conditional_directives_wf(*s),
            o < s.objects@.len(),
            reach_ok(*s, *doc, all),
            selections_ok(*s, all, sels@.len()),
            v0.subset_of(name_set(visited@)),
            (grouped_view(g@), name_set(visited@)) == spec_collect_fields(*s, *doc, vv, outcomes@, o as int, all, v0, i as nat),
        decreases sels@.len() - i,
    {
        let sel: &'a Selection = sels[i];
        proof {
            lemma_selections_ok_each(*s, all, sels@.len(), i as int);
            lemma_spreads_ok_each(*s, frags, all, sels@.len(), i as int);
            assert(all[i as int] == *sel);
            assert(v0.union(name_set(visited@)) =~= name_set(visited@));
            lemma_unvisited_monotone(frags, v0, name_set(visited@), frags.len());
        }
        let dirs = match sel {
            Selection::Field(f) => &f.directives,
            Selection::FragmentSpread { directives, .. } => directives,
            Selection::InlineFragment { directives, .. } => directives,
        };
        if !left_out(s, dirs, vars, outcomes) {
            match sel {
                Selection::Field(f) => {
                    let mut single: Vec<&'a Field> = Vec::new();
                    single.push(f);
                    proof {
                        assert(field_refs(single@) =~= seq![*f]);
                    }
                    group_insert_into(&mut g, f.response_key(), &single);
                },
                Selection::FragmentSpread { name, .. } => {
                    if !visited_contains(visited, name.as_str()) {
                        let ghost before = visited@;
                        visited.push(name.clone());
                        proof {
                            assert(strings_view(visited@) =~= strings_view(before).push(name@));
                            strings_view(before).lemma_push_to_set_commute(name@);
                            assert(name_set(visited@) =~= name_set(before).insert(name@));
                        }
                        match find_fragment(doc, name.as_str()) {
                            None => {},
                            Some(fi) => {
                                proof {
                                    lemma_fragment_index_found(frags, name@, 0);
                                }
                                let frag = &doc.fragment_definitions[fi];
                                proof {
                                    lemma_unvisited_insert(frags, name_set(before), name@, fi as int, frags.len());
                                    assert(fragment_target(*s, frags[fi as int].type_condition@));
                                }
                                if does_fragment_type_apply(s, o, frag.type_condition.as_str()) {
                                    let inner_sels = refs_of(&frag.selection_set);
                                    let ghost v2 = name_set(visited@);
                                    let inner = collect_fields(s, doc, vars, outcomes, o, &inner_sels, visited);
                                    proof {
                                        assert(v2.union(name_set(visited@)) =~= name_set(visited@));
                                    }
                                    group_merge_into(&mut g, &inner);
                                }
                            },
                        }
                    }
                },
                Selection::InlineFragment { type_condition, selection_set, .. } => {
                    let applies = match type_condition {
                        Some(tc) => does_fragment_type_apply(s, o, tc.as_str()),
                        None => true,
                    };
                    if applies {
                        let inner_sels = refs_of(selection_set);
                        let ghost v1 = name_set(visited@);
                        proof {
                            assert(decreases_to!(all => all[i as int]));
                            assert(decreases_to!(*sel => *selection_set));
                            assert(decreases_to!(*selection_set => selection_set@));
                        }
                        let inner = collect_fields(s, doc, vars, outcomes, o, &inner_sels, visited);
                        proof {
                            assert(v1.union(name_set(visited@)) =~= name_set(visited@));
                        }
                        group_merge_into(&mut g, &inner);
                    }
                },
            }
        }
        i = i + 1;
    }
    g
}

} // verus!
