//! RDF terms as the browser handles them, and the items it lists.
use vstd::prelude::*;

use crate::util::string::str_eq;

verus! {

/// The datatype IRI of a plain string literal.
pub const XSD_STRING: &'static str = "http://www.w3.org/2001/XMLSchema#string";

/// The datatype IRI of a language-tagged string literal.
pub const RDF_LANG_STRING: &'static str = "http://www.w3.org/1999/02/22-rdf-syntax-ns#langString";

/// An IRI naming a resource.
#[derive(Debug, Clone, PartialEq, Eq, Hash)]
pub struct NamedNode {
    iri: String,
}

impl View for NamedNode {
    type V = Seq<char>;

    closed spec fn view(&self) -> Seq<char> {
        self.iri@
    }
}

impl NamedNode {
    /// A named node for `iri`, taken as it is.
    pub fn new_unchecked(iri: String) -> (r: NamedNode)
        ensures
            r@ == iri@,
    {
        NamedNode { iri }
    }

    /// The IRI.
    pub fn as_str(&self) -> (r: &str)
        ensures
            r@ == self@,
    {
        self.iri.as_str()
    }

    /// An equal copy.
    pub fn duplicate(&self) -> (r: NamedNode)
        ensures
            r == *self,
    {
        NamedNode { iri: self.iri.clone() }
    }
}

/// A blank node, by its identifier.
#[derive(Debug, Clone, PartialEq, Eq, Hash)]
pub struct BlankNode {
    id: String,
}

impl View for BlankNode {
    type V = Seq<char>;

    closed spec fn view(&self) -> Seq<char> {
        self.id@
    }
}

impl BlankNode {
    /// A blank node with identifier `id`, taken as it is.
    pub fn new_unchecked(id: String) -> (r: BlankNode)
        ensures
            r@ == id@,
    {
        BlankNode { id }
    }

    /// The identifier.
    pub fn as_str(&self) -> (r: &str)
        ensures
            r@ == self@,
    {
        self.id.as_str()
    }

    /// An equal copy.
    pub fn duplicate(&self) -> (r: BlankNode)
        ensures
            r == *self,
    {
        BlankNode { id: self.id.clone() }
    }
}

/// A literal: a lexical value that is a plain string, carries a language tag,
/// or carries a datatype.
#[derive(Debug, Clone, PartialEq, Eq, Hash)]
pub enum Literal {
    Simple(String),
    LanguageTagged { value: String, language: String },
    Typed { value: String, datatype: NamedNode },
}

impl Literal {
    /// The lexical value.
    pub open spec fn spec_value(&self) -> Seq<char> {
        match self {
            Literal::Simple(v) => v@,
            Literal::LanguageTagged { value, .. } => value@,
            Literal::Typed { value, .. } => value@,
        }
    }

    /// The language tag, for a language-tagged string.
    pub open spec fn spec_language(&self) -> Option<Seq<char>> {
        match self {
            Literal::LanguageTagged { language, .. } => Some(language@),
            _ => None,
        }
    }

    /// The datatype IRI: `xsd:string` for a plain string, `rdf:langString`
    /// for a language-tagged one.
    pub open spec fn spec_datatype(&self) -> Seq<char> {
        match self {
            Literal::Simple(_) => XSD_STRING@,
            Literal::LanguageTagged { .. } => RDF_LANG_STRING@,
            Literal::Typed { datatype, .. } => datatype@,
        }
    }

    /// A plain string literal.
    pub fn new_simple_literal(value: String) -> (r: Literal)
        ensures
            r.spec_value() == value@,
            r.spec_language() is None,
            r.spec_datatype() == XSD_STRING@,
    {
        Literal::Simple(value)
    }

    /// A literal of the given datatype.
    pub fn new_typed_literal(value: String, datatype: NamedNode) -> (r: Literal)
        ensures
            r.spec_value() == value@,
            r.spec_language() is None,
            r.spec_datatype() == datatype@,
    {
        Literal::Typed { value, datatype }
    }

    /// A language-tagged string literal, the tag taken as it is.
    pub fn new_language_tagged_literal_unchecked(value: String, language: String) -> (r: Literal)
        ensures
            r.spec_value() == value@,
            r.spec_language() == Some(language@),
            r.spec_datatype() == RDF_LANG_STRING@,
    {
        Literal::LanguageTagged { value, language }
    }

    /// The lexical value.
    pub fn value(&self) -> (r: &str)
        ensures
            r@ == self.spec_value(),
    {
        match self {
            Literal::Simple(v) => v.as_str(),
            Literal::LanguageTagged { value, .. } => value.as_str(),
            Literal::Typed { value, .. } => value.as_str(),
        }
    }

    /// The language tag, if any.
    pub fn language(&self) -> (r: Option<&str>)
        ensures
            r matches Some(l) ==> self.spec_language() == Some(l@),
            r is None ==> self.spec_language() is None,
    {
        match self {
            Literal::LanguageTagged { language, .. } => Some(language.as_str()),
            _ => None,
        }
    }

    /// The datatype IRI.
    pub fn datatype(&self) -> (r: &str)
        ensures
            r@ == self.spec_datatype(),
    {
        match self {
            Literal::Simple(_) => XSD_STRING,
            Literal::LanguageTagged { .. } => RDF_LANG_STRING,
            Literal::Typed { datatype, .. } => datatype.as_str(),
        }
    }

    /// An equal copy.
    pub fn duplicate(&self) -> (r: Literal)
        ensures
            r == *self,
    {
        match self {
            Literal::Simple(v) => Literal::Simple(v.clone()),
            Literal::LanguageTagged { value, language } => Literal::LanguageTagged {
                value: value.clone(),
                language: language.clone(),
            },
            Literal::Typed { value, datatype } => Literal::Typed {
                value: value.clone(),
                datatype: datatype.duplicate(),
            },
        }
    }
}

/// An RDF term: an IRI, a blank node or a literal.
#[derive(Debug, Clone, PartialEq, Eq, Hash)]
pub enum Term {
    NamedNode(NamedNode),
    BlankNode(BlankNode),
    Literal(Literal),
}

impl Term {
    /// The IRI `iri`.
    pub fn iri(iri: String) -> (r: Term)
        ensures
            r matches Term::NamedNode(n) && n@ == iri@,
    {
        Term::NamedNode(NamedNode { iri })
    }

    /// The blank node with the identifier `id`.
    pub fn blank(id: String) -> (r: Term)
        ensures
            r matches Term::BlankNode(b) && b@ == id@,
    {
        Term::BlankNode(BlankNode { id })
    }

    /// The literal with lexical value `value`: a language-tagged string when
    /// it has a language tag, else a plain string when its datatype is
    /// `xsd:string`, else a literal of that datatype.
    pub fn literal(value: &str, datatype: &str, language: Option<&str>) -> (r: Term)
        ensures
            r matches Term::Literal(l) && l.spec_value() == value@ && match language {
                Some(g) => l is LanguageTagged && l.spec_language() == Some(g@),
                None => l.spec_language() is None && l.spec_datatype() == datatype@ && (l is Simple
                    <==> datatype@ == XSD_STRING@),
            },
    {
        let v = value.to_owned();
        match language {
            Some(g) => Term::Literal(Literal::LanguageTagged { value: v, language: g.to_owned() }),
            None => if str_eq(datatype, XSD_STRING) {
                Term::Literal(Literal::Simple(v))
            } else {
                Term::Literal(Literal::Typed { value: v, datatype: NamedNode { iri: datatype.to_owned() } })
            },
        }
    }

    /// An equal copy.
    pub fn duplicate(&self) -> (r: Term)
        ensures
            r == *self,
    {
        match self {
            Term::NamedNode(n) => Term::NamedNode(n.duplicate()),
            Term::BlankNode(b) => Term::BlankNode(b.duplicate()),
            Term::Literal(l) => Term::Literal(l.duplicate()),
        }
    }
}

/// A subject of a triple: an IRI or a blank node.
#[derive(Debug, Clone, PartialEq, Eq, Hash)]
pub enum Subject {
    NamedNode(NamedNode),
    BlankNode(BlankNode),
}

/// The resource the browser can show: a term that can be navigated to.
#[derive(Debug, Clone, PartialEq, Eq, Hash)]
pub enum FocusTerm {
    NamedNode(NamedNode),
}

impl FocusTerm {
    /// The IRI of the focus, when it is one.
    pub fn as_named_node(&self) -> (r: Option<&NamedNode>)
        ensures
            r == match self {
                FocusTerm::NamedNode(n) => Some(n),
            },
    {
        match self {
            FocusTerm::NamedNode(node) => Some(node),
        }
    }

    /// The focus on `node`.
    pub fn from_named_node(node: NamedNode) -> (r: FocusTerm)
        ensures
            r == FocusTerm::NamedNode(node),
    {
        FocusTerm::NamedNode(node)
    }

    /// The focus that `term` names; blank nodes and literals name none.
    pub fn try_from_term(term: Term) -> (r: Result<FocusTerm, ()>)
        ensures
            r == spec_focus_of_term(term),
    {
        match term {
            Term::NamedNode(node) => Ok(FocusTerm::NamedNode(node)),
            Term::BlankNode(_) | Term::Literal(_) => Err(()),
        }
    }

    /// The focus as a term.
    pub fn into_term(self) -> (r: Term)
        ensures
            r == spec_term_of_focus(self),
    {
        match self {
            FocusTerm::NamedNode(node) => Term::NamedNode(node),
        }
    }

    /// The focus as the subject of a triple.
    pub fn into_subject(self) -> (r: Subject)
        ensures
            r == match self {
                FocusTerm::NamedNode(n) => Subject::NamedNode(n),
            },
    {
        match self {
            FocusTerm::NamedNode(node) => Subject::NamedNode(node),
        }
    }

    /// An equal copy.
    pub fn duplicate(&self) -> (r: FocusTerm)
        ensures
            r == *self,
    {
        match self {
            FocusTerm::NamedNode(n) => FocusTerm::NamedNode(n.duplicate()),
        }
    }
}

/// The focus that a term names, if any.
pub open spec fn spec_focus_of_term(term: Term) -> Result<FocusTerm, ()> {
    match term {
        Term::NamedNode(node) => Ok(FocusTerm::NamedNode(node)),
        _ => Err(()),
    }
}

/// A focus seen as a term.
pub open spec fn spec_term_of_focus(focus: FocusTerm) -> Term {
    match focus {
        FocusTerm::NamedNode(node) => Term::NamedNode(node),
    }
}

/// Turning a focus into a term and back gives the same focus.
pub proof fn lemma_focus_term_roundtrip(focus: FocusTerm)
    ensures
        spec_focus_of_term(spec_term_of_focus(focus)) == Ok::<FocusTerm, ()>(focus),
{
}

/// A term that names a focus is that focus seen as a term.
pub proof fn lemma_term_focus_roundtrip(term: Term)
    ensures
        spec_focus_of_term(term) matches Ok(f) ==> spec_term_of_focus(f) == term,
{
}

/// The resource the browser currently shows.
#[derive(Debug, Clone)]
pub struct BrowserData {
    pub focus: FocusTerm,
}

/// One navigable line of the browser view.
#[derive(Debug, Clone)]
pub enum BrowserItem {
    LiteralProp { prop: NamedNode, value: Literal },
    OutgoingLink { prop: NamedNode, target: FocusTerm },
    IncomingLink { prop: NamedNode, source: FocusTerm },
    AsPredicateRow { subject: FocusTerm, object: Term },
}

impl BrowserItem {
    /// The resource that activating this line opens: the target of an
    /// outgoing link, the source of an incoming one, the subject of a row
    /// that uses the focus as predicate; a literal property opens nothing.
    pub fn navigable_focus(&self) -> (r: Option<&FocusTerm>)
        ensures
            r == match self {
                BrowserItem::OutgoingLink { target, .. } => Some(target),
                BrowserItem::IncomingLink { source, .. } => Some(source),
                BrowserItem::AsPredicateRow { subject, .. } => Some(subject),
                BrowserItem::LiteralProp { .. } => None::<&FocusTerm>,
            },
            r is None <==> self is LiteralProp,
    {
        match self {
            BrowserItem::OutgoingLink { target, .. } => Some(target),
            BrowserItem::IncomingLink { source, .. } => Some(source),
            BrowserItem::AsPredicateRow { subject, .. } => Some(subject),
            BrowserItem::LiteralProp { .. } => None,
        }
    }
}

/// The table that a free-form query returned.
#[derive(Debug, Clone)]
pub struct SparqlResult {
    pub variables: Vec<String>,
    pub rows: Vec<Vec<Option<Term>>>,
}

/// A resource whose literal matched a text search.
#[derive(Debug, Clone)]
pub struct SearchResult {
    pub resource: FocusTerm,
    pub property: NamedNode,
    pub matched_value: String,
}

} // verus!
