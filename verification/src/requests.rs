//! Requests: parsing a query, the start of its execution, and its result.
use vstd::prelude::*;

use crate::document::{ExecutableDocument, OperationDefinition, OperationType};
use crate::engine::{
    ExecutionError, ExecutionErrorKind, exec_errors_view, get_operation, get_variable_values,
    spec_get_operation, spec_get_variable_values, spec_reported, variables_typed,
};
use crate::input_coercion::{CoercionFailure, FailureView, ScalarOutcome};
use crate::input_schema::schema_wf;
use crate::checks::{operation_typed_check, reach_check, schema_ok};
use crate::collect_fields::{conditional_directives_wf, reach_ok};
use crate::execution::field_arguments_wf;
use crate::output_schema::{SchemaDefinition, schema_refs_wf};
use crate::parsing::{parse_document, parsed_document, resolve_document, resolves, types_readable};
use crate::parser_coercion::{VariablesView, vars_view};
use crate::ruby_value::{RubyData, RubyValue};

verus! {

/// Whether a query parses into a document with at least one definition.
pub fn parse(query: &str) -> (r: bool)
    ensures
        r == (parsed_document(query@) matches Ok(p) && p.operations@.len() + p.fragment_definitions@.len() > 0),
{
    match parse_document(query) {
        Ok(p) => p.operations.len() > 0 || p.fragment_definitions.len() > 0,
        Err(_) => false,
    }
}

/// The content of an execution result: its value and its errors as Ruby
/// code receives them.
pub struct ExecutionResultView {
    pub value: RubyData,
    pub errors: Seq<(Seq<char>, Option<Seq<Seq<char>>>)>,
}

/// The result of executing a request.
#[derive(Debug)]
pub struct ExecutionResult {
    pub value: RubyValue,
    pub errors: Vec<crate::errors::ExecutionError>,
}

/// The messages and paths of a list of errors as Ruby code receives them.
pub open spec fn reported_errors(errors: Seq<ExecutionErrorKind>) -> Seq<(Seq<char>, Option<Seq<Seq<char>>>)> {
    errors.map_values(|e: ExecutionErrorKind| spec_reported(e))
}

/// The messages and paths of Ruby's execution errors.
pub open spec fn ruby_errors_view(errors: Seq<crate::errors::ExecutionError>) -> Seq<(Seq<char>, Option<Seq<Seq<char>>>)> {
    errors.map_values(|e: crate::errors::ExecutionError| (e@.message, e@.path))
}

impl ExecutionResult {
    /// The result of a request: its value, and its errors converted to the
    /// errors that Ruby code receives.
    pub fn new(value: RubyValue, errors: Vec<ExecutionError>) -> (r: ExecutionResult)
        ensures
            r.value@ == value@,
            ruby_errors_view(r.errors@) == reported_errors(exec_errors_view(errors@)),
    {
        let ghost all = exec_errors_view(errors@);
        let mut errors = errors;
        let mut rev: Vec<ExecutionError> = Vec::new();
        while errors.len() > 0
            invariant
                exec_errors_view(errors@) + exec_errors_view(rev@).reverse() == all,
            decreases errors.len(),
        {
            let ghost be = errors@;
            let ghost br = rev@;
            let e = errors.pop().unwrap();
            let ghost ev = e@;
            rev.push(e);
            proof {
                assert(exec_errors_view(be) =~= exec_errors_view(errors@).push(ev));
                assert(exec_errors_view(rev@) =~= exec_errors_view(br).push(ev));
                assert(exec_errors_view(rev@).reverse() =~= seq![ev] + exec_errors_view(br).reverse());
                assert(exec_errors_view(errors@) + exec_errors_view(rev@).reverse() =~= exec_errors_view(be)
                    + exec_errors_view(br).reverse());
            }
        }
        proof {
            assert(exec_errors_view(errors@) =~= Seq::<ExecutionErrorKind>::empty());
            assert(exec_errors_view(rev@).reverse() =~= all);
        }
        let ghost rv = exec_errors_view(rev@);
        let mut out: Vec<crate::errors::ExecutionError> = Vec::new();
        proof {
            assert(ruby_errors_view(out@) =~= reported_errors(all.subrange(0, 0)));
        }
        while rev.len() > 0
            invariant
                rev@.len() <= rv.len(),
                exec_errors_view(rev@) == rv.subrange(0, rev@.len() as int),
                rv.reverse() == all,
                ruby_errors_view(out@) == reported_errors(all.subrange(0, (rv.len() - rev@.len()) as int)),
            decreases rev@.len(),
        {
            let ghost k = rev@.len();
            let ghost br = rev@;
            let e = rev.pop().unwrap();
            let ghost m = (rv.len() - k) as int;
            proof {
                assert(exec_errors_view(br)[k - 1] == e@);
                assert(rv.subrange(0, k as int)[k - 1] == rv[k - 1]);
                assert(all[m] == rv[k - 1]);
                assert(exec_errors_view(rev@) =~= rv.subrange(0, rev@.len() as int));
            }
            let ghost ev = e@;
            let ghost bo = ruby_errors_view(out@);
            let re = e.into_ruby();
            out.push(re);
            proof {
                assert(ruby_errors_view(out@) =~= bo.push(spec_reported(ev)));
                assert(all.subrange(0, m + 1) =~= all.subrange(0, m).push(all[m]));
                assert(reported_errors(all.subrange(0, m + 1)) =~= reported_errors(all.subrange(0, m)).push(
                    spec_reported(all[m]),
                ));
            }
        }
        proof {
            assert(all.subrange(0, all.len() as int) =~= all);
        }
        ExecutionResult { value, errors: out }
    }
}

/// The errors that the messages of a query's parse errors stand for.
pub open spec fn parse_errors_view(messages: Seq<Seq<char>>) -> Seq<ExecutionErrorKind> {
    messages.map_values(|m: Seq<char>| ExecutionErrorKind::ParseError(m))
}

/// Whether an operation's variables have input types of the schema.
pub open spec fn operation_typed(s: SchemaDefinition, op: OperationDefinition) -> bool {
    op.variable_definitions matches Some(defs) ==> variables_typed(s, defs@)
}

/// Whether a request for the operation `k` of a document is one that
/// execution can work with: the schema's definitions refer to definitions
/// it holds and define `skip` and `include`, the operation's variables
/// have input types of the schema, and every fragment the operation
/// reaches targets a type fragments may target.
pub open spec fn request_supported(s: SchemaDefinition, doc: ExecutableDocument, k: int) -> bool {
    &&& schema_wf(s.input)
    &&& schema_refs_wf(s)
    &&& conditional_directives_wf(s)
    &&& field_arguments_wf(s)
    &&& operation_typed(s, doc.operation_definitions@[k])
    &&& reach_ok(s, doc, doc.operation_definitions@[k].selection_set@)
}

/// How the preparation of a request ends: with errors, on a schema or
/// document that execution cannot work with, or with the operation to
/// execute.
#[derive(Debug)]
pub enum Prepared {
    Failed(Vec<ExecutionError>),
    Unsupported,
    Ready(usize),
}

pub enum PreparedView {
    Failed(Seq<ExecutionErrorKind>),
    Unsupported,
    Ready(int),
}

pub open spec fn prepared_view(p: Prepared) -> PreparedView {
    match p {
        Prepared::Failed(es) => PreparedView::Failed(exec_errors_view(es@)),
        Prepared::Unsupported => PreparedView::Unsupported,
        Prepared::Ready(k) => PreparedView::Ready(k as int),
    }
}

/// The preparation of a request on a document: the choice of the
/// operation, then the checks that execution needs.
pub open spec fn spec_prepare_doc(
    s: SchemaDefinition,
    doc: ExecutableDocument,
    operation_name: Option<Seq<char>>,
) -> PreparedView {
    match spec_get_operation(doc, operation_name) {
        Err(e) => PreparedView::Failed(seq![e]),
        Ok(k) => if request_supported(s, doc, k) {
            PreparedView::Ready(k)
        } else {
            PreparedView::Unsupported
        },
    }
}

pub open spec fn opt_view(n: Option<&str>) -> Option<Seq<char>> {
    match n {
        Some(n) => Some(n@),
        None => None,
    }
}

/// Parses a query and prepares its request: the errors of parsing end it;
/// otherwise the document, where every variable's type can be read, and
/// the choice of its operation.
pub fn prepare_request(s: &SchemaDefinition, query: &str, operation_name: Option<&str>) -> (r: (
    Prepared,
    Option<ExecutableDocument>,
))
    ensures
        match parsed_document(query@) {
            Err(messages) => r.1 is None && prepared_view(r.0) == PreparedView::Failed(parse_errors_view(messages)),
            Ok(p) => match r.1 {
                None => !types_readable(p) && r.0 is Unsupported,
                Some(doc) => resolves(p, doc) && prepared_view(r.0) == spec_prepare_doc(
                    *s,
                    doc,
                    opt_view(operation_name),
                ),
            },
        },
        r.0 matches Prepared::Ready(k) ==> r.1 matches Some(doc) && k < doc.operation_definitions@.len(),
{
    let parsed = match parse_document(query) {
        Ok(p) => p,
        Err(messages) => {
            let mut errors: Vec<ExecutionError> = Vec::new();
            let mut i: usize = 0;
            while i < messages.len()
                invariant
                    i <= messages@.len(),
                    exec_errors_view(errors@) == parse_errors_view(
                        crate::coercion_error::strings_view(messages@).subrange(0, i as int),
                    ),
                decreases messages@.len() - i,
            {
                let ghost be = exec_errors_view(errors@);
                errors.push(ExecutionError::ParseError(messages[i].clone()));
                proof {
                    let sv = crate::coercion_error::strings_view(messages@);
                    assert(sv.subrange(0, i + 1) =~= sv.subrange(0, i as int).push(sv[i as int]));
                    assert(exec_errors_view(errors@) =~= be.push(ExecutionErrorKind::ParseError(messages@[i as int]@)));
                    assert(parse_errors_view(sv.subrange(0, i + 1)) =~= parse_errors_view(sv.subrange(0, i as int)).push(
                        ExecutionErrorKind::ParseError(sv[i as int]),
                    ));
                }
                i = i + 1;
            }
            proof {
                let sv = crate::coercion_error::strings_view(messages@);
                assert(sv.subrange(0, sv.len() as int) =~= sv);
            }
            return (Prepared::Failed(errors), None);
        },
    };
    let doc = match resolve_document(parsed) {
        Some(doc) => doc,
        None => {
            return (Prepared::Unsupported, None);
        },
    };
    let prepared = match get_operation(&doc, operation_name) {
        Err(e) => {
            let ghost ev = e@;
            let mut errors: Vec<ExecutionError> = Vec::new();
            errors.push(e);
            proof {
                assert(exec_errors_view(errors@) =~= seq![ev]);
            }
            Prepared::Failed(errors)
        },
        Ok(k) => {
            if schema_ok(s) && operation_typed_check(s, &doc.operation_definitions[k]) && reach_check(
                s,
                &doc,
                &doc.operation_definitions[k].selection_set,
            ) {
                Prepared::Ready(k)
            } else {
                Prepared::Unsupported
            }
        },
    };
    (prepared, Some(doc))
}

/// How a request starts: the errors that end it at once, a schema or
/// document that execution cannot work with, or the operation to execute
/// with its coerced variables.
#[derive(Debug)]
pub enum RequestStart {
    Failed(Vec<ExecutionError>),
    Unsupported,
    Ready { operation: usize, variables: Vec<(String, RubyValue)> },
}

pub enum StartView {
    Failed(Seq<ExecutionErrorKind>),
    Unsupported,
    Ready { operation: int, variables: VariablesView },
}

pub open spec fn start_view(r: Result<RequestStart, CoercionFailure>) -> Result<StartView, FailureView> {
    match r {
        Err(f) => Err(f@),
        Ok(RequestStart::Failed(es)) => Ok(StartView::Failed(exec_errors_view(es@))),
        Ok(RequestStart::Unsupported) => Ok(StartView::Unsupported),
        Ok(RequestStart::Ready { operation, variables }) => Ok(
            StartView::Ready { operation: operation as int, variables: vars_view(variables@) },
        ),
    }
}

/// The start of a request on a document: its preparation, then the
/// coercion of the operation's variables.
pub open spec fn spec_start_doc(
    s: SchemaDefinition,
    doc: ExecutableDocument,
    operation_name: Option<Seq<char>>,
    given: VariablesView,
    outcomes: Seq<ScalarOutcome>,
) -> Result<StartView, FailureView> {
    match spec_prepare_doc(s, doc, operation_name) {
        PreparedView::Failed(es) => Ok(StartView::Failed(es)),
        PreparedView::Unsupported => Ok(StartView::Unsupported),
        PreparedView::Ready(k) => match spec_get_variable_values(s, doc.operation_definitions@[k], given, outcomes) {
            Err(f) => Err(f),
            Ok(Err(errs)) => Ok(StartView::Failed(errs)),
            Ok(Ok(vars)) => Ok(StartView::Ready { operation: k, variables: vars }),
        },
    }
}

/// Every operation's variables have input types of the schema.
pub open spec fn operations_typed(s: SchemaDefinition, doc: ExecutableDocument) -> bool {
    forall|k: int|
        0 <= k < doc.operation_definitions@.len() ==> ((#[trigger] doc.operation_definitions@[k]).variable_definitions matches Some(
            defs,
        ) ==> variables_typed(s, defs@))
}

/// Starts a request: parses the query, chooses the operation and coerces
/// its variables.  The parsed document comes back with the start, where
/// the query parses and every variable's type can be read.
pub fn start_request(
    s: &SchemaDefinition,
    query: &str,
    operation_name: Option<&str>,
    given: &Vec<(String, RubyValue)>,
    outcomes: &Vec<ScalarOutcome>,
) -> (r: Result<(RequestStart, Option<ExecutableDocument>), CoercionFailure>)
    ensures
        match parsed_document(query@) {
            Err(messages) => r matches Ok((st, None)) && start_view(Ok(st)) == Ok::<StartView, FailureView>(
                StartView::Failed(parse_errors_view(messages)),
            ),
            Ok(p) => match r {
                Ok((st, None)) => !types_readable(p) && st is Unsupported,
                Ok((st, Some(doc))) => resolves(p, doc) && start_view(Ok(st)) == spec_start_doc(
                    *s,
                    doc,
                    opt_view(operation_name),
                    vars_view(given@),
                    outcomes@,
                ),
                Err(f) => exists|doc: ExecutableDocument|
                    #[trigger] resolves(p, doc) && spec_start_doc(
                        *s,
                        doc,
                        opt_view(operation_name),
                        vars_view(given@),
                        outcomes@,
                    ) == Err::<StartView, FailureView>(f@),
            },
        },
{
    let (prepared, doc) = prepare_request(s, query, operation_name);
    let doc = match doc {
        None => {
            let st = match prepared {
                Prepared::Failed(errors) => RequestStart::Failed(errors),
                _ => RequestStart::Unsupported,
            };
            return Ok((st, None));
        },
        Some(doc) => doc,
    };
    match prepared {
        Prepared::Failed(errors) => Ok((RequestStart::Failed(errors), Some(doc))),
        Prepared::Unsupported => Ok((RequestStart::Unsupported, Some(doc))),
        Prepared::Ready(k) => {
            let ghost d = doc;
            proof {
                assert(operation_typed(*s, doc.operation_definitions@[k as int]));
            }
            match get_variable_values(s, &doc.operation_definitions[k], given, outcomes) {
                Err(f) => {
                    proof {
                        assert(resolves(parsed_document(query@)->Ok_0, d));
                    }
                    Err(f)
                },
                Ok(Err(errs)) => Ok((RequestStart::Failed(errs), Some(doc))),
                Ok(Ok(variables)) => Ok((RequestStart::Ready { operation: k, variables }, Some(doc))),
            }
        },
    }
}

/// The root object type of an operation and the method of the initial
/// value that gives the root value: `query` for queries and `mutation` for
/// mutations.  `None` where the operation cannot be executed: a mutation
/// without a mutation root, or a subscription.
pub open spec fn spec_operation_root(s: SchemaDefinition, t: OperationType) -> Option<(usize, Seq<char>)> {
    match t {
        OperationType::Query => Some((s.query, "query"@)),
        OperationType::Mutation => match s.mutation {
            Some(m) => Some((m, "mutation"@)),
            None => None,
        },
        OperationType::Subscription => None,
    }
}

pub fn operation_root(s: &SchemaDefinition, t: OperationType) -> (r: Option<(usize, &'static str)>)
    ensures
        match r {
            Some((o, m)) => spec_operation_root(*s, t) == Some((o, m@)),
            None => spec_operation_root(*s, t) is None,
        },
{
    proof {
        reveal_strlit("query");
        reveal_strlit("mutation");
    }
    match t {
        OperationType::Query => Some((s.query, "query")),
        OperationType::Mutation => match s.mutation {
            Some(m) => Some((m, "mutation")),
            None => None,
        },
        OperationType::Subscription => None,
    }
}

} // verus!
