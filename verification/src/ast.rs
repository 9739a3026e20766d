//! The message syntax tree the runtime consumes: patterns of literal text and
//! placeables, expressions, select variants, and the message/term entries of
//! a parsed resource. The grammar that produces this tree is an external
//! collaborator; the tree is handled defensively.

use vstd::prelude::*;

use crate::number::FluentNumber;

verus! {

/// An ordered sequence of literal text and placeables; the order is the
/// resolution order.
#[derive(Debug)]
pub struct Pattern {
    pub elements: Vec<PatternElement>,
}

#[derive(Debug)]
pub enum PatternElement {
    /// Literal text, appended verbatim.
    Text(String),
    /// An embedded expression, rendered by resolving and stringifying.
    Placeable(Expression),
}

/// The arguments of a term or function reference.
#[derive(Debug)]
pub struct CallArguments {
    pub positional: Vec<Expression>,
    pub named: Vec<NamedArgument>,
}

#[derive(Debug)]
pub struct NamedArgument {
    pub name: String,
    pub value: Expression,
}

#[derive(Debug)]
pub enum Expression {
    StringLiteral(String),
    /// A numeric literal; its explicit fraction-digit count is preserved in
    /// the number's scale.
    NumberLiteral(FluentNumber),
    VariableReference(String),
    /// A message id and an optional attribute name.
    MessageReference(String, Option<String>),
    /// A term id, an optional attribute name, and call arguments whose named
    /// part becomes the term's local variables.
    TermReference(String, Option<String>, CallArguments),
    FunctionReference(String, CallArguments),
    /// A selector and its ordered variants, one of which should be marked
    /// default.
    Select(Box<Expression>, Vec<Variant>),
}

#[derive(Debug)]
pub enum VariantKey {
    Identifier(String),
    NumberLiteral(FluentNumber),
}

#[derive(Debug)]
pub struct Variant {
    pub key: VariantKey,
    pub value: Pattern,
    pub default: bool,
}

/// A message entry: an id, an optional value pattern, and named attributes.
#[derive(Debug)]
pub struct FluentMessage {
    pub id: String,
    pub value: Option<Pattern>,
    pub attributes: Vec<(String, Pattern)>,
}

/// A term entry: an id, a value pattern, and named attributes. Terms are only
/// referenceable from other patterns, never formatted directly.
#[derive(Debug)]
pub struct FluentTerm {
    pub id: String,
    pub value: Pattern,
    pub attributes: Vec<(String, Pattern)>,
}

/// One top-level item of a parsed resource; comments and junk are ignorable.
#[derive(Debug)]
pub enum ResourceEntry {
    Message(FluentMessage),
    Term(FluentTerm),
    Ignored,
}

/// An ordered list of top-level entries, as the parser produced them.
#[derive(Debug)]
pub struct FluentResource {
    pub entries: Vec<ResourceEntry>,
}

/// Every numeric literal in the pattern keeps its scale within the machine
/// bound.
pub open spec fn pattern_wf(p: Pattern) -> bool
    decreases p, 1int,
{
    forall|i: int| 0 <= i < p.elements@.len() ==> element_wf(#[trigger] p.elements@[i])
}

pub open spec fn element_wf(e: PatternElement) -> bool
    decreases e, 1int,
{
    match e {
        PatternElement::Text(_) => true,
        PatternElement::Placeable(x) => expr_wf(x),
    }
}

pub open spec fn expr_wf(e: Expression) -> bool
    decreases e, 1int,
{
    match e {
        Expression::StringLiteral(_) => true,
        Expression::NumberLiteral(n) => n.wf(),
        Expression::VariableReference(_) => true,
        Expression::MessageReference(_, _) => true,
        Expression::TermReference(_, _, a) => call_args_wf(a),
        Expression::FunctionReference(_, a) => call_args_wf(a),
        Expression::Select(sel, variants) => expr_wf(*sel) && (forall|i: int|
            0 <= i < variants@.len() ==> variant_wf(#[trigger] variants@[i])),
    }
}

pub open spec fn call_args_wf(a: CallArguments) -> bool
    decreases a, 1int,
{
    &&& (forall|i: int| 0 <= i < a.positional@.len() ==> expr_wf(#[trigger] a.positional@[i]))
    &&& (forall|i: int| 0 <= i < a.named@.len() ==> expr_wf((#[trigger] a.named@[i]).value))
}

pub open spec fn variant_wf(v: Variant) -> bool
    decreases v, 1int,
{
    &&& match v.key {
        VariantKey::Identifier(_) => true,
        VariantKey::NumberLiteral(n) => n.wf(),
    }
    &&& pattern_wf(v.value)
}

pub open spec fn message_wf(m: FluentMessage) -> bool {
    &&& (m.value matches Some(p) ==> pattern_wf(p))
    &&& (forall|i: int| 0 <= i < m.attributes@.len() ==> pattern_wf((#[trigger] m.attributes@[i]).1))
}

pub open spec fn term_wf(t: FluentTerm) -> bool {
    &&& pattern_wf(t.value)
    &&& (forall|i: int| 0 <= i < t.attributes@.len() ==> pattern_wf((#[trigger] t.attributes@[i]).1))
}

pub open spec fn resource_wf(r: FluentResource) -> bool {
    forall|i: int|
        0 <= i < r.entries@.len() ==> match #[trigger] r.entries@[i] {
            ResourceEntry::Message(m) => message_wf(m),
            ResourceEntry::Term(t) => term_wf(t),
            ResourceEntry::Ignored => true,
        }
}

} // verus!
