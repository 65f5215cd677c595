//! Parsing a query with `bluejay_parser`: the parsed document is converted
//! one for one into the library's plain values, integers by their literals
//! and each value with the text that `bluejay_printer` prints for it.  Each
//! variable comes with the text of the query that follows its name, from
//! which [`resolve_document`] reads its declared type.
use vstd::prelude::*;
use bluejay_core::executable::{
    ExecutableDocument as _, ExplicitOperationDefinition as _, Field as _, FragmentDefinition as _,
    FragmentSpread as _, ImplicitOperationDefinition as _, InlineFragment as _, Selection as _,
    SelectionReference as SRef,
    VariableType as _, VariableTypeReference as TRef,
};
use bluejay_core::{AsIter, Directive as _, ObjectValue as OV, Value as _, ValueReference as VRef, Variable as _};
use bluejay_parser::ast::{executable as parsed, Parse};
use bluejay_parser::HasSpan;
use bluejay_printer::value::ValuePrinter;

use crate::coercion_error::strings_view;
use crate::document::{
    Argument, ExecutableDirective, ExecutableDocument, Field, FragmentDefinition, OperationDefinition, OperationType,
    Selection, VariableDefinition,
};
use crate::type_source::{declared_type, declared_view, spec_declared_type};
use crate::parser_value::ParserValueKind::{Boolean, Enum, Float, Integer, List, Null, Object, String as Str, Variable};
use crate::parser_value::{ParserValue, pdata_printed, printed_value};

verus! {

/// A variable as the parser read it: its name, the text of the query that
/// follows its name (where its type is declared), and its default value.
#[derive(Debug)]
pub struct ParsedVariable {
    pub name: String,
    pub type_source: String,
    pub default_value: Option<ParserValue>,
}

/// An operation as the parser read it.
#[derive(Debug)]
pub struct ParsedOperation {
    pub operation_type: OperationType,
    pub name: Option<String>,
    pub variable_definitions: Option<Vec<ParsedVariable>>,
    pub directives: Vec<ExecutableDirective>,
    pub selection_set: Vec<Selection>,
}

/// A document as the parser read it.
#[derive(Debug)]
pub struct ParsedDocument {
    pub operations: Vec<ParsedOperation>,
    pub fragment_definitions: Vec<FragmentDefinition>,
}

#[verifier::external_type_specification]
#[verifier::external_body]
pub struct ExParsedValue<'a, const CONST: bool>(bluejay_parser::ast::Value<'a, CONST>);

#[verifier::external_type_specification]
#[verifier::external_body]
pub struct ExParsedArguments<'a, const CONST: bool>(bluejay_parser::ast::Arguments<'a, CONST>);

#[verifier::external_type_specification]
#[verifier::external_body]
pub struct ExParsedDirectives<'a, const CONST: bool>(bluejay_parser::ast::Directives<'a, CONST>);

#[verifier::external_type_specification]
#[verifier::external_body]
pub struct ExParsedSelectionSet<'a>(bluejay_parser::ast::executable::SelectionSet<'a>);

#[verifier::external_type_specification]
#[verifier::external_body]
pub struct ExParsedVariableDefinitions<'a>(bluejay_parser::ast::executable::VariableDefinitions<'a>);

#[verifier::external_type_specification]
#[verifier::external_body]
pub struct ExParsedExplicitOperation<'a>(bluejay_parser::ast::executable::ExplicitOperationDefinition<'a>);

#[verifier::external_type_specification]
#[verifier::external_body]
pub struct ExParsedImplicitOperation<'a>(bluejay_parser::ast::executable::ImplicitOperationDefinition<'a>);

/// Converts a value that `bluejay_parser` read, one for one, and gives it
/// the text that `bluejay_printer`'s `ValuePrinter::to_string` prints for
/// it.  The contract claims that this text, at every depth, is the printed
/// text named for the value's kind.
#[verifier::external_body]
fn convert_value<const C: bool>(v: &bluejay_parser::ast::Value<'_, C>) -> (r: ParserValue)
    ensures
        r@.display == printed_value(r@.kind),
        pdata_printed(r@),
{
    ParserValue {
        display: ValuePrinter::to_string(v),
        kind: match v.as_ref() {
            VRef::Variable(x) => Variable(x.name().into()),
            VRef::Integer(i) => Integer(i.to_string()),
            VRef::Float(f) => Float(f.to_bits()),
            VRef::String(s) => Str(s.into()),
            VRef::Boolean(b) => Boolean(b),
            VRef::Null => Null,
            VRef::Enum(e) => Enum(e.into()),
            VRef::List(l) => List(l.iter().map(convert_value).collect()),
            VRef::Object(o) => Object(OV::iter(o).map(|(k, x)| (k.as_str().into(), convert_value(x))).collect()),
        },
    }
}

/// Converts the arguments that `bluejay_parser` read, one for one.
#[verifier::external_body]
fn convert_arguments(args: Option<&bluejay_parser::ast::Arguments<'_, false>>) -> Option<Vec<Argument>> {
    args.map(|a| a.iter().map(|x| Argument { name: x.name().as_str().to_owned(), value: convert_value(x.value()) }).collect())
}

/// Converts the directives that `bluejay_parser` read, one for one.
#[verifier::external_body]
fn convert_directives(dirs: Option<&bluejay_parser::ast::Directives<'_, false>>) -> Vec<ExecutableDirective> {
    dirs.into_iter().flat_map(|ds| ds.iter()).map(
        |d| ExecutableDirective { name: d.name().as_str().to_owned(), arguments: convert_arguments(d.arguments()) },
    ).collect()
}

/// Converts the parts of a field that `bluejay_parser` read, one for one.
#[verifier::external_body]
fn field_of(
    alias: Option<&str>,
    name: &str,
    args: Option<&bluejay_parser::ast::Arguments<'_, false>>,
    dirs: Option<&bluejay_parser::ast::Directives<'_, false>>,
    set: Option<&bluejay_parser::ast::executable::SelectionSet<'_>>,
) -> Field {
    Field {
        alias: alias.map(str::to_owned),
        name: name.to_owned(),
        arguments: convert_arguments(args),
        directives: convert_directives(dirs),
        selection_set: set.map(convert_selections),
    }
}

/// Converts a selection set that `bluejay_parser` read, one for one.
#[verifier::external_body]
fn convert_selections(set: &bluejay_parser::ast::executable::SelectionSet<'_>) -> Vec<Selection> {
    set.iter().map(|s| match s.as_ref() {
        SRef::Field(f) => Selection::Field(field_of(f.alias(), f.name().as_str(), f.arguments(), f.directives(), f.selection_set())),
        SRef::FragmentSpread(fs) => {
            Selection::FragmentSpread { name: fs.name().as_str().to_owned(), directives: convert_directives(fs.directives()) }
        },
        SRef::InlineFragment(i) => Selection::InlineFragment {
            type_condition: i.type_condition().map(|t| t.named_type().as_str().to_owned()),
            directives: convert_directives(i.directives()),
            selection_set: convert_selections(i.selection_set()),
        },
    }).collect()
}

/// Converts the variable definitions that `bluejay_parser` read, one for
/// one; each variable's type is given by the text of the query that
/// follows the variable's name (the end of its span).
#[verifier::external_body]
fn convert_variables(defs: &bluejay_parser::ast::executable::VariableDefinitions<'_>, query: &str) -> Vec<ParsedVariable> {
    defs.iter().map(|d| ParsedVariable {
        name: d.variable().as_str().to_owned(),
        type_source: query[d.variable().span().byte_range().end..].to_owned(),
        default_value: d.default_value().map(convert_value),
    }).collect()
}

/// Converts an operation with its keyword that `bluejay_parser` read, one
/// for one.
#[verifier::external_body]
fn explicit_operation(op: &bluejay_parser::ast::executable::ExplicitOperationDefinition<'_>, query: &str) -> ParsedOperation {
    ParsedOperation {
        operation_type: match bluejay_core::executable::ExplicitOperationDefinition::operation_type(op) {
            bluejay_core::OperationType::Query => OperationType::Query,
            bluejay_core::OperationType::Mutation => OperationType::Mutation,
            bluejay_core::OperationType::Subscription => OperationType::Subscription,
        },
        name: op.name().map(|n| n.as_str().to_owned()),
        variable_definitions: op.variable_definitions().map(|defs| convert_variables(defs, query)),
        directives: convert_directives(op.directives()),
        selection_set: convert_selections(op.selection_set()),
    }
}

/// Converts an operation written as a bare selection set that
/// `bluejay_parser` read, one for one: an anonymous query.
#[verifier::external_body]
fn implicit_operation(op: &bluejay_parser::ast::executable::ImplicitOperationDefinition<'_>) -> ParsedOperation {
    ParsedOperation {
        operation_type: OperationType::Query,
        name: None,
        variable_definitions: None,
        directives: Vec::new(),
        selection_set: convert_selections(op.selection_set()),
    }
}

/// Converts the parts of a fragment definition that `bluejay_parser` read,
/// one for one.
#[verifier::external_body]
fn fragment_of(
    name: &str,
    type_condition: &str,
    dirs: Option<&bluejay_parser::ast::Directives<'_, false>>,
    set: &bluejay_parser::ast::executable::SelectionSet<'_>,
) -> FragmentDefinition {
    FragmentDefinition {
        name: name.to_owned(),
        type_condition: type_condition.to_owned(),
        directives: convert_directives(dirs),
        selection_set: convert_selections(set),
    }
}

/// What `bluejay_parser` makes of a query: the document it parses into, or
/// the messages of its errors.
pub uninterp spec fn parsed_document(query: Seq<char>) -> Result<ParsedDocument, Seq<Seq<char>>>;

pub open spec fn document_result_view(r: Result<ParsedDocument, Vec<String>>) -> Result<
    ParsedDocument,
    Seq<Seq<char>>,
> {
    match r {
        Ok(doc) => Ok(doc),
        Err(messages) => Err(strings_view(messages@)),
    }
}

/// Calls `bluejay_parser`'s `ExecutableDocument::parse` (with its default
/// options) and converts the document one for one, or takes the messages
/// of its errors; the contract names the result.
#[verifier::external_body]
pub(crate) fn parse_document(query: &str) -> (r: Result<ParsedDocument, Vec<String>>)
    ensures
        document_result_view(r) == parsed_document(query@),
{
    match parsed::ExecutableDocument::parse(query).result {
        Ok(doc) => Ok(ParsedDocument {
            operations: doc.operation_definitions().iter().map(|op| match op {
                parsed::OperationDefinition::Explicit(e) => explicit_operation(e, query),
                parsed::OperationDefinition::Implicit(i) => implicit_operation(i),
            }).collect(),
            fragment_definitions: doc.fragment_definitions().iter().map(|f| fragment_of(
                f.name().as_str(), f.type_condition().named_type().as_str(), f.directives(), f.selection_set(),
            )).collect(),
        }),
        Err(errors) => Err(errors.iter().map(|e| e.message().to_owned()).collect()),
    }
}

/// A variable whose declared type was read from its text.
pub open spec fn variable_resolves(pv: ParsedVariable, v: VariableDefinition) -> bool {
    &&& v.name == pv.name
    &&& v.default_value == pv.default_value
    &&& spec_declared_type(pv.type_source@) == Some(declared_view(v.variable_type))
}

pub open spec fn variables_resolve(pvs: Option<Vec<ParsedVariable>>, vs: Option<Vec<VariableDefinition>>) -> bool {
    match (pvs, vs) {
        (None, None) => true,
        (Some(p), Some(v)) => v@.len() == p@.len() && forall|j: int|
            0 <= j < p@.len() ==> variable_resolves(p@[j], #[trigger] v@[j]),
        _ => false,
    }
}

/// An operation whose variables' declared types were read.
pub open spec fn operation_resolves(po: ParsedOperation, o: OperationDefinition) -> bool {
    &&& o.operation_type == po.operation_type
    &&& o.name == po.name
    &&& variables_resolve(po.variable_definitions, o.variable_definitions)
    &&& o.directives == po.directives
    &&& o.selection_set == po.selection_set
}

/// The document that a parsed document stands for, once the declared type
/// of each variable is read from its text.
pub open spec fn resolves(p: ParsedDocument, d: ExecutableDocument) -> bool {
    &&& d.fragment_definitions == p.fragment_definitions
    &&& d.operation_definitions@.len() == p.operations@.len()
    &&& forall|k: int|
        0 <= k < p.operations@.len() ==> operation_resolves(p.operations@[k], #[trigger] d.operation_definitions@[k])
}

pub open spec fn operation_types_readable(po: ParsedOperation) -> bool {
    match po.variable_definitions {
        None => true,
        Some(vs) => forall|j: int| 0 <= j < vs@.len() ==> (#[trigger] spec_declared_type(vs@[j].type_source@)) is Some,
    }
}

/// Whether every variable of a parsed document declares a type that can
/// be read.
pub open spec fn types_readable(p: ParsedDocument) -> bool {
    forall|k: int| 0 <= k < p.operations@.len() ==> operation_types_readable(#[trigger] p.operations@[k])
}

fn resolve_variables(pvs: Vec<ParsedVariable>) -> (r: Option<Vec<VariableDefinition>>)
    ensures
        match r {
            Some(vs) => variables_resolve(Some(pvs), Some(vs)),
            None => exists|j: int| 0 <= j < pvs@.len() && (#[trigger] spec_declared_type(pvs@[j].type_source@)) is None,
        },
{
    let ghost orig = pvs@;
    let mut rest = pvs;
    let mut out: Vec<VariableDefinition> = Vec::new();
    while rest.len() > 0
        invariant
            orig == pvs@,
            out@.len() + rest@.len() == orig.len(),
            rest@ == orig.subrange(out@.len() as int, orig.len() as int),
            forall|j: int| 0 <= j < out@.len() ==> variable_resolves(orig[j], #[trigger] out@[j]),
        decreases rest@.len(),
    {
        let ghost j = out@.len() as int;
        let pv = rest.remove(0);
        proof {
            assert(pv == orig[j]);
            assert(rest@ =~= orig.subrange(j + 1, orig.len() as int));
        }
        match declared_type(pv.type_source.as_str()) {
            Some(t) => {
                out.push(VariableDefinition { name: pv.name, variable_type: t, default_value: pv.default_value });
            },
            None => {
                proof {
                    assert(0 <= j < orig.len());
                    assert(spec_declared_type(orig[j].type_source@) is None);
                }
                return None;
            },
        }
    }
    Some(out)
}

/// Reads the declared type of each variable of a parsed document: the
/// document it stands for, where every type can be read.
pub fn resolve_document(p: ParsedDocument) -> (r: Option<ExecutableDocument>)
    ensures
        r is Some <==> types_readable(p),
        r matches Some(d) ==> resolves(p, d),
{
    let ghost orig = p.operations@;
    let ghost whole = p;
    let ParsedDocument { operations, fragment_definitions } = p;
    let mut rest = operations;
    let mut out: Vec<OperationDefinition> = Vec::new();
    while rest.len() > 0
        invariant
            whole == p,
            orig == whole.operations@,
            out@.len() + rest@.len() == orig.len(),
            rest@ == orig.subrange(out@.len() as int, orig.len() as int),
            forall|k: int| 0 <= k < out@.len() ==> operation_resolves(orig[k], #[trigger] out@[k]),
            forall|k: int| 0 <= k < out@.len() ==> operation_types_readable(#[trigger] orig[k]),
        decreases rest@.len(),
    {
        let ghost k = out@.len() as int;
        let po = rest.remove(0);
        proof {
            assert(po == orig[k]);
            assert(rest@ =~= orig.subrange(k + 1, orig.len() as int));
        }
        let variable_definitions = match po.variable_definitions {
            None => None,
            Some(pvs) => match resolve_variables(pvs) {
                Some(vs) => Some(vs),
                None => {
                    proof {
                        assert(!operation_types_readable(orig[k]));
                        assert(!operation_types_readable(whole.operations@[k]));
                    }
                    return None;
                },
            },
        };
        proof {
            if variable_definitions is Some {
                let vs = variable_definitions->0;
                let pvs = orig[k].variable_definitions->0;
                assert forall|j: int| 0 <= j < pvs@.len() implies (#[trigger] spec_declared_type(
                    pvs@[j].type_source@,
                )) is Some by {
                    assert(variable_resolves(pvs@[j], vs@[j]));
                }
            }
            assert(operation_types_readable(orig[k]));
        }
        out.push(OperationDefinition {
            operation_type: po.operation_type,
            name: po.name,
            variable_definitions,
            directives: po.directives,
            selection_set: po.selection_set,
        });
    }
    let d = ExecutableDocument { operation_definitions: out, fragment_definitions };
    proof {
        assert(types_readable(whole));
    }
    Some(d)
}

} // verus!
