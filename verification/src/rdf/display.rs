//! How terms are shown to the user and written into SPARQL text.
use vstd::prelude::*;

use crate::app::model::{BlankNode, FocusTerm, Literal, NamedNode, Term, XSD_STRING};
use crate::util::string::{
    chars_of, has_prefix, push_all, sanitized, sanitize, str_eq, strip_prefix, truncate,
    truncated,
};

verus! {

/// The built-in prefixes, each with the namespace IRI that it abbreviates.
pub open spec fn builtin_prefixes() -> Seq<(Seq<char>, Seq<char>)> {
    seq![
        ("rdf"@, "http://www.w3.org/1999/02/22-rdf-syntax-ns#"@),
        ("rdfs"@, "http://www.w3.org/2000/01/rdf-schema#"@),
        ("owl"@, "http://www.w3.org/2002/07/owl#"@),
        ("xsd"@, "http://www.w3.org/2001/XMLSchema#"@),
        ("skos"@, "http://www.w3.org/2004/02/skos/core#"@),
        ("dc"@, "http://purl.org/dc/elements/1.1/"@),
        ("dct"@, "http://purl.org/dc/terms/"@),
        ("foaf"@, "http://xmlns.com/foaf/0.1/"@),
        ("schema"@, "https://schema.org/"@),
    ]
}

/// Whether the prefix `entry` abbreviates `iri`: the IRI starts with the
/// namespace and goes on past it.
pub open spec fn prefix_applies(entry: (Seq<char>, Seq<char>), iri: Seq<char>) -> bool {
    has_prefix(iri, entry.1) && iri.len() > entry.1.len()
}

/// Whether some built-in prefix abbreviates `iri`.
pub open spec fn has_builtin_prefix(iri: Seq<char>) -> bool {
    exists|k: int| 0 <= k < builtin_prefixes().len() && prefix_applies(builtin_prefixes()[k], iri)
}

/// An IRI in short form: `prefix:local` when a built-in prefix abbreviates it,
/// else the IRI in angle brackets.
pub open spec fn shortened(iri: Seq<char>) -> Seq<char> {
    if has_builtin_prefix(iri) {
        let k = choose|k: int|
            0 <= k < builtin_prefixes().len() && prefix_applies(builtin_prefixes()[k], iri);
        builtin_prefixes()[k].0 + seq![':'] + iri.skip(builtin_prefixes()[k].1.len() as int)
    } else {
        seq!['<'] + iri + seq!['>']
    }
}

/// The view of an optional label.
pub open spec fn opt_view(label: Option<String>) -> Option<Seq<char>> {
    match label {
        Some(l) => Some(l@),
        None => None,
    }
}

/// How an IRI is shown: its cached label when one is known, else its short form.
pub open spec fn displayed_iri(labels: Map<Seq<char>, Option<Seq<char>>>, iri: Seq<char>) -> Seq<
    char,
> {
    if labels.contains_key(iri) && labels[iri] is Some {
        labels[iri]->0
    } else {
        shortened(iri)
    }
}

/// The suffix shown after a literal's value: `@lang` for a language-tagged
/// string, nothing for a plain string, `^^type` (the datatype in short form)
/// otherwise.
pub open spec fn literal_suffix(lit: Literal) -> Option<Seq<char>> {
    match lit.spec_language() {
        Some(lang) => Some(seq!['@'] + lang),
        None => if lit.spec_datatype() == XSD_STRING@ {
            None
        } else {
            Some(seq!['^', '^'] + shortened(lit.spec_datatype()))
        },
    }
}

/// A value with an optional suffix, one space between them.
pub open spec fn with_suffix(value: Seq<char>, suffix: Option<Seq<char>>) -> Seq<char> {
    match suffix {
        Some(s) => value + seq![' '] + s,
        None => value,
    }
}

/// How a literal is shown: its value on one line, then its suffix.
pub open spec fn displayed_literal(lit: Literal) -> Seq<char> {
    with_suffix(sanitized(lit.spec_value()), literal_suffix(lit))
}

/// The width that a value may take when `avail` characters are there for the
/// value, a space and the suffix.
pub open spec fn value_width(avail: nat, suffix: Option<Seq<char>>) -> nat {
    let suffix_len: nat = match suffix {
        Some(s) => s.len() + 1,
        None => 0,
    };
    if avail >= suffix_len {
        (avail - suffix_len) as nat
    } else {
        0
    }
}

/// `_:` followed by the blank node identifier.
pub open spec fn displayed_blank(id: Seq<char>) -> Seq<char> {
    seq!['_', ':'] + id
}

/// How a term is shown.
pub open spec fn displayed_term(labels: Map<Seq<char>, Option<Seq<char>>>, term: Term) -> Seq<
    char,
> {
    match term {
        Term::NamedNode(n) => displayed_iri(labels, n@),
        Term::BlankNode(b) => displayed_blank(b@),
        Term::Literal(l) => displayed_literal(l),
    }
}

/// How a term is shown in a result table cell, a literal cut to 60 characters.
pub open spec fn displayed_term_plain(labels: Map<Seq<char>, Option<Seq<char>>>, term: Term) -> Seq<
    char,
> {
    match term {
        Term::Literal(l) => with_suffix(
            truncated(sanitized(l.spec_value()), value_width(60, literal_suffix(l))),
            literal_suffix(l),
        ),
        _ => displayed_term(labels, term),
    }
}

/// How a focus is shown.
pub open spec fn displayed_focus(labels: Map<Seq<char>, Option<Seq<char>>>, focus: FocusTerm) -> Seq<
    char,
> {
    match focus {
        FocusTerm::NamedNode(n) => displayed_iri(labels, n@),
    }
}

/// The SPARQL escape of one character of a string literal.
pub open spec fn escape_code(c: char) -> Seq<char> {
    if c == '\\' {
        seq!['\\', '\\']
    } else if c == '"' {
        seq!['\\', '"']
    } else if c == '\n' {
        seq!['\\', 'n']
    } else if c == '\r' {
        seq!['\\', 'r']
    } else if c == '\t' {
        seq!['\\', 't']
    } else {
        seq![c]
    }
}

/// `s` escaped for a SPARQL string literal.
pub open spec fn escaped_literal(s: Seq<char>) -> Seq<char> {
    s.map_values(|c: char| escape_code(c)).flatten()
}

/// A literal written in SPARQL: the quoted, escaped value, then `@lang`,
/// nothing for a plain string, or `^^type` with the datatype in short form.
pub open spec fn sparql_literal_text(lit: Literal) -> Seq<char> {
    let quoted = seq!['"'] + escaped_literal(lit.spec_value()) + seq!['"'];
    match lit.spec_language() {
        Some(lang) => quoted + seq!['@'] + lang,
        None => if lit.spec_datatype() == XSD_STRING@ {
            quoted
        } else {
            quoted + seq!['^', '^'] + shortened(lit.spec_datatype())
        },
    }
}

/// A term written in SPARQL.
pub open spec fn sparql_term_text(term: Term) -> Seq<char> {
    match term {
        Term::NamedNode(n) => shortened(n@),
        Term::BlankNode(b) => displayed_blank(b@),
        Term::Literal(l) => sparql_literal_text(l),
    }
}

/// A focus written in SPARQL.
pub open spec fn sparql_focus_text(focus: FocusTerm) -> Seq<char> {
    match focus {
        FocusTerm::NamedNode(n) => shortened(n@),
    }
}

/// Whether no two entries of `cache` have the same IRI.
pub open spec fn distinct_keys(cache: Seq<(String, Option<String>)>) -> bool {
    forall|i: int, j: int|
        0 <= i < cache.len() && 0 <= j < cache.len() && i != j ==> cache[i].0@ != cache[j].0@
}

/// The labels that `cache` holds, the later entry winning for one IRI.
pub open spec fn cache_map(cache: Seq<(String, Option<String>)>) -> Map<
    Seq<char>,
    Option<Seq<char>>,
>
    decreases cache.len(),
{
    if cache.len() == 0 {
        Map::empty()
    } else {
        cache_map(cache.drop_last()).insert(cache.last().0@, opt_view(cache.last().1))
    }
}

/// The view of the prefix table.
pub open spec fn prefix_view(prefixes: Seq<(String, String)>) -> Seq<(Seq<char>, Seq<char>)> {
    prefixes.map_values(|p: (String, String)| (p.0@, p.1@))
}

/// What the browser knows to show terms: the prefixes and the labels fetched so far.
pub struct DisplayContext {
    prefixes: Vec<(String, String)>,
    label_cache: Vec<(String, Option<String>)>,
}

proof fn lemma_cache_map_lookup(cache: Seq<(String, Option<String>)>, i: int)
    requires
        distinct_keys(cache),
        0 <= i < cache.len(),
    ensures
        cache_map(cache).contains_key(cache[i].0@),
        cache_map(cache)[cache[i].0@] == opt_view(cache[i].1),
    decreases cache.len(),
{
    if i < cache.len() - 1 {
        let d = cache.drop_last();
        assert(d[i] == cache[i]);
        lemma_cache_map_lookup(d, i);
    }
}

proof fn lemma_cache_map_absent(cache: Seq<(String, Option<String>)>, k: Seq<char>)
    requires
        forall|i: int| 0 <= i < cache.len() ==> cache[i].0@ != k,
    ensures
        !cache_map(cache).contains_key(k),
    decreases cache.len(),
{
    if cache.len() > 0 {
        let d = cache.drop_last();
        assert forall|i: int| 0 <= i < d.len() implies d[i].0@ != k by {
            assert(d[i] == cache[i]);
        }
        lemma_cache_map_absent(d, k);
    }
}

proof fn lemma_cache_map_update(
    cache: Seq<(String, Option<String>)>,
    i: int,
    entry: (String, Option<String>),
)
    requires
        distinct_keys(cache),
        0 <= i < cache.len(),
        entry.0@ == cache[i].0@,
    ensures
        cache_map(cache.update(i, entry)) == cache_map(cache).insert(entry.0@, opt_view(entry.1)),
    decreases cache.len(),
{
    let u = cache.update(i, entry);
    if i == cache.len() - 1 {
        assert(u.drop_last() =~= cache.drop_last());
        assert(cache_map(u) =~= cache_map(cache).insert(entry.0@, opt_view(entry.1)));
    } else {
        let d = cache.drop_last();
        assert(u.drop_last() =~= d.update(i, entry));
        assert(d[i] == cache[i]);
        lemma_cache_map_update(d, i, entry);
        assert(cache.last().0@ != entry.0@) by {
            assert(cache[cache.len() - 1] == cache.last());
        }
        assert(cache_map(u) =~= cache_map(cache).insert(entry.0@, opt_view(entry.1)));
    }
}

impl DisplayContext {
    #[verifier::type_invariant]
    spec fn well_formed(self) -> bool {
        &&& prefix_view(self.prefixes@) == builtin_prefixes()
        &&& distinct_keys(self.label_cache@)
    }

    /// The labels fetched so far, by IRI (`None` where none was found).
    pub closed spec fn labels(&self) -> Map<Seq<char>, Option<Seq<char>>> {
        cache_map(self.label_cache@)
    }

    /// A context with the built-in prefixes and no labels.
    pub fn new() -> (r: DisplayContext)
        ensures
            r.labels() == Map::<Seq<char>, Option<Seq<char>>>::empty(),
    {
        let mut prefixes: Vec<(String, String)> = Vec::new();
        prefixes.push(("rdf".to_owned(), "http://www.w3.org/1999/02/22-rdf-syntax-ns#".to_owned()));
        prefixes.push(("rdfs".to_owned(), "http://www.w3.org/2000/01/rdf-schema#".to_owned()));
        prefixes.push(("owl".to_owned(), "http://www.w3.org/2002/07/owl#".to_owned()));
        prefixes.push(("xsd".to_owned(), "http://www.w3.org/2001/XMLSchema#".to_owned()));
        prefixes.push(("skos".to_owned(), "http://www.w3.org/2004/02/skos/core#".to_owned()));
        prefixes.push(("dc".to_owned(), "http://purl.org/dc/elements/1.1/".to_owned()));
        prefixes.push(("dct".to_owned(), "http://purl.org/dc/terms/".to_owned()));
        prefixes.push(("foaf".to_owned(), "http://xmlns.com/foaf/0.1/".to_owned()));
        prefixes.push(("schema".to_owned(), "https://schema.org/".to_owned()));
        assert(prefix_view(prefixes@) =~= builtin_prefixes());
        let r = DisplayContext { prefixes, label_cache: Vec::new() };
        assert(r.labels() =~= Map::<Seq<char>, Option<Seq<char>>>::empty());
        r
    }

    /// Remembers `label` (or that there is none) for `iri`, in place of
    /// anything remembered before.
    pub fn cache_label(&mut self, iri: &str, label: Option<String>)
        ensures
            final(self).labels() == old(self).labels().insert(iri@, opt_view(label)),
    {
        proof {
            use_type_invariant(&*self);
        }
        let mut cache: Vec<(String, Option<String>)> = Vec::new();
        std::mem::swap(&mut cache, &mut self.label_cache);
        let ghost old_cache = cache@;
        assert(old_cache == old(self).label_cache@);
        let mut i: usize = 0;
        while i < cache.len()
            invariant
                cache@ == old_cache,
                old_cache == old(self).label_cache@,
                self.prefixes == old(self).prefixes,
                prefix_view(self.prefixes@) == builtin_prefixes(),
                distinct_keys(old_cache),
                0 <= i <= cache@.len(),
                forall|j: int| 0 <= j < i ==> cache@[j].0@ != iri@,
            decreases cache@.len() - i,
        {
            if str_eq(cache[i].0.as_str(), iri) {
                let entry = (cache[i].0.clone(), label);
                let ghost e = entry;
                cache.set(i, entry);
                proof {
                    lemma_cache_map_update(old_cache, i as int, e);
                    assert forall|a: int, b: int|
                        0 <= a < cache@.len() && 0 <= b < cache@.len() && a != b implies cache@[a].0@
                        != cache@[b].0@ by {
                        if a != i && b != i {
                            assert(cache@[a] == old_cache[a] && cache@[b] == old_cache[b]);
                        } else if a == i {
                            assert(cache@[b] == old_cache[b]);
                        } else {
                            assert(cache@[a] == old_cache[a]);
                        }
                    }
                }
                self.label_cache = cache;
                return ;
            }
            i = i + 1;
        }
        let entry = (iri.to_owned(), label);
        let ghost e = entry;
        cache.push(entry);
        proof {
            assert(cache@.drop_last() =~= old_cache);
            assert(cache@.last() == e);
            assert forall|a: int, b: int|
                0 <= a < cache@.len() && 0 <= b < cache@.len() && a != b implies cache@[a].0@
                != cache@[b].0@ by {
                if a < old_cache.len() && b < old_cache.len() {
                    assert(cache@[a] == old_cache[a] && cache@[b] == old_cache[b]);
                } else if a < old_cache.len() {
                    assert(cache@[a] == old_cache[a]);
                } else {
                    assert(cache@[b] == old_cache[b]);
                }
            }
        }
        self.label_cache = cache;
    }

    /// The label cached for `iri`, if one was found.
    pub fn cached_label(&self, iri: &str) -> (r: Option<String>)
        ensures
            opt_view(r) == if self.labels().contains_key(iri@) && self.labels()[iri@] is Some {
                self.labels()[iri@]
            } else {
                None
            },
    {
        proof {
            use_type_invariant(self);
        }
        let mut i: usize = 0;
        while i < self.label_cache.len()
            invariant
                distinct_keys(self.label_cache@),
                0 <= i <= self.label_cache@.len(),
                forall|j: int| 0 <= j < i ==> self.label_cache@[j].0@ != iri@,
            decreases self.label_cache@.len() - i,
        {
            if str_eq(self.label_cache[i].0.as_str(), iri) {
                proof {
                    lemma_cache_map_lookup(self.label_cache@, i as int);
                }
                return match &self.label_cache[i].1 {
                    Some(l) => Some(l.clone()),
                    None => None,
                };
            }
            i = i + 1;
        }
        proof {
            lemma_cache_map_absent(self.label_cache@, iri@);
        }
        None
    }

    /// Whether a label, or its absence, is remembered for `iri`: whether
    /// one was fetched for it already.
    pub fn knows_label(&self, iri: &str) -> (r: bool)
        ensures
            r == self.labels().contains_key(iri@),
    {
        proof {
            use_type_invariant(self);
        }
        let mut i: usize = 0;
        while i < self.label_cache.len()
            invariant
                distinct_keys(self.label_cache@),
                0 <= i <= self.label_cache@.len(),
                forall|j: int| 0 <= j < i ==> self.label_cache@[j].0@ != iri@,
            decreases self.label_cache@.len() - i,
        {
            if str_eq(self.label_cache[i].0.as_str(), iri) {
                proof {
                    lemma_cache_map_lookup(self.label_cache@, i as int);
                }
                return true;
            }
            i = i + 1;
        }
        proof {
            lemma_cache_map_absent(self.label_cache@, iri@);
        }
        false
    }

    /// An IRI in short form: `prefix:local` for a built-in prefix, else `<iri>`.
    pub fn shorten_iri(&self, iri: &str) -> (r: String)
        ensures
            r@ == shortened(iri@),
    {
        proof {
            use_type_invariant(self);
        }
        let mut k: usize = 0;
        while k < self.prefixes.len()
            invariant
                prefix_view(self.prefixes@) == builtin_prefixes(),
                0 <= k <= self.prefixes@.len(),
                forall|j: int| 0 <= j < k ==> !prefix_applies(builtin_prefixes()[j], iri@),
            decreases self.prefixes@.len() - k,
        {
            let ghost entry = builtin_prefixes()[k as int];
            assert(self.prefixes@[k as int].0@ == entry.0 && self.prefixes@[k as int].1@ == entry.1);
            match strip_prefix(iri, self.prefixes[k].1.as_str()) {
                Some(local) => {
                    if !local.as_str().is_empty() {
                        proof {
                            lemma_builtin_prefixes_exclusive(iri@, k as int);
                        }
                        let mut r = self.prefixes[k].0.clone();
                        r.push(':');
                        push_all(&mut r, local.as_str());
                        return r;
                    }
                },
                None => {},
            }
            k = k + 1;
        }
        let mut r = String::new();
        r.push('<');
        push_all(&mut r, iri);
        r.push('>');
        assert(r@ =~= seq!['<'] + iri@ + seq!['>']);
        r
    }

    /// How an IRI is shown: its label if one was fetched, else its short form.
    pub fn display_node(&self, node: &NamedNode) -> (r: String)
        ensures
            r@ == displayed_iri(self.labels(), node@),
    {
        let iri = node.as_str();
        match self.cached_label(iri) {
            Some(label) => label,
            None => self.shorten_iri(iri),
        }
    }

    /// How a term is shown.
    pub fn display_term(&self, term: &Term) -> (r: String)
        ensures
            r@ == displayed_term(self.labels(), *term),
    {
        match term {
            Term::NamedNode(n) => self.display_node(n),
            Term::BlankNode(b) => display_blank(b),
            Term::Literal(l) => self.display_literal(l),
        }
    }

    /// How a term is shown in a table cell: a literal cut to 60 characters.
    pub fn display_term_plain(&self, term: &Term) -> (r: String)
        ensures
            r@ == displayed_term_plain(self.labels(), *term),
    {
        match term {
            Term::NamedNode(n) => self.display_node(n),
            Term::BlankNode(b) => display_blank(b),
            Term::Literal(l) => {
                let (v, suffix) = self.display_literal_parts(l, 60);
                join_suffix(v, suffix)
            },
        }
    }

    /// How a focus is shown.
    pub fn display_focus(&self, focus: &FocusTerm) -> (r: String)
        ensures
            r@ == displayed_focus(self.labels(), *focus),
    {
        match focus {
            FocusTerm::NamedNode(n) => self.display_node(n),
        }
    }

    /// How a literal is shown: its value on one line, then its suffix.
    pub fn display_literal(&self, lit: &Literal) -> (r: String)
        ensures
            r@ == displayed_literal(*lit),
    {
        let (value, suffix) = self.literal_parts(lit);
        join_suffix(value, suffix)
    }

    /// The value of `lit`, on one line and cut to fit `avail_chars` together
    /// with a space and the suffix, and the suffix.
    pub fn display_literal_parts(&self, lit: &Literal, avail_chars: usize) -> (r: (
        String,
        Option<String>,
    ))
        ensures
            r.0@ == truncated(
                sanitized(lit.spec_value()),
                value_width(avail_chars as nat, literal_suffix(*lit)),
            ),
            opt_view(r.1) == literal_suffix(*lit),
    {
        let (value, suffix) = self.literal_parts(lit);
        let value_max: usize = match &suffix {
            Some(s) => {
                let n = chars_of(s.as_str()).len();
                if avail_chars > n {
                    avail_chars - n - 1
                } else {
                    0
                }
            },
            None => avail_chars,
        };
        (truncate(value, value_max), suffix)
    }

    /// The value of `lit` on one line, and the suffix shown after it.
    pub fn literal_parts(&self, lit: &Literal) -> (r: (String, Option<String>))
        ensures
            r.0@ == sanitized(lit.spec_value()),
            opt_view(r.1) == literal_suffix(*lit),
    {
        let value = sanitize(lit.value());
        match lit.language() {
            Some(lang) => {
                let mut s = String::new();
                s.push('@');
                push_all(&mut s, lang);
                assert(s@ =~= seq!['@'] + lang@);
                (value, Some(s))
            },
            None => {
                let dt = lit.datatype();
                if str_eq(dt, XSD_STRING) {
                    (value, None)
                } else {
                    let mut s = String::new();
                    s.push('^');
                    s.push('^');
                    let short = self.shorten_iri(dt);
                    push_all(&mut s, short.as_str());
                    assert(s@ =~= seq!['^', '^'] + shortened(lit.spec_datatype()));
                    (value, Some(s))
                }
            },
        }
    }

    /// An IRI written for SPARQL: `prefix:local` or `<iri>`, never a label.
    pub fn sparql_node(&self, node: &NamedNode) -> (r: String)
        ensures
            r@ == shortened(node@),
    {
        self.shorten_iri(node.as_str())
    }

    /// A literal written for SPARQL: quoted and escaped, then `@lang` or
    /// `^^type` (nothing for a plain string).
    pub fn sparql_literal(&self, lit: &Literal) -> (r: String)
        ensures
            r@ == sparql_literal_text(*lit),
    {
        let mut s = String::new();
        s.push('"');
        escape_literal_into(&mut s, lit.value());
        s.push('"');
        let ghost quoted = seq!['"'] + escaped_literal(lit.spec_value()) + seq!['"'];
        assert(s@ =~= quoted);
        match lit.language() {
            Some(lang) => {
                s.push('@');
                push_all(&mut s, lang);
                assert(s@ =~= quoted + seq!['@'] + lang@);
            },
            None => {
                let dt = lit.datatype();
                if !str_eq(dt, XSD_STRING) {
                    s.push('^');
                    s.push('^');
                    let short = self.shorten_iri(dt);
                    push_all(&mut s, short.as_str());
                    assert(s@ =~= quoted + seq!['^', '^'] + shortened(lit.spec_datatype()));
                }
            },
        }
        s
    }

    /// A term written for SPARQL.
    pub fn sparql_term(&self, term: &Term) -> (r: String)
        ensures
            r@ == sparql_term_text(*term),
    {
        match term {
            Term::NamedNode(n) => self.sparql_node(n),
            Term::BlankNode(b) => display_blank(b),
            Term::Literal(l) => self.sparql_literal(l),
        }
    }

    /// A focus written for SPARQL.
    pub fn sparql_focus(&self, focus: &FocusTerm) -> (r: String)
        ensures
            r@ == sparql_focus_text(*focus),
    {
        match focus {
            FocusTerm::NamedNode(n) => self.sparql_node(n),
        }
    }
}

/// `_:` and the identifier.
fn display_blank(b: &BlankNode) -> (r: String)
    ensures
        r@ == displayed_blank(b@),
{
    let mut s = String::new();
    s.push('_');
    s.push(':');
    push_all(&mut s, b.as_str());
    assert(s@ =~= seq!['_', ':'] + b@);
    s
}

/// The value, then a space and the suffix when there is one.
fn join_suffix(value: String, suffix: Option<String>) -> (r: String)
    ensures
        r@ == with_suffix(value@, opt_view(suffix)),
{
    match suffix {
        Some(s) => {
            let mut r = value;
            r.push(' ');
            push_all(&mut r, s.as_str());
            r
        },
        None => value,
    }
}

/// An IRI in N-Triples: in angle brackets.
pub open spec fn ntriples_iri(iri: Seq<char>) -> Seq<char> {
    seq!['<'] + iri + seq!['>']
}

/// A literal in N-Triples: the quoted, escaped value, then `@lang`, nothing
/// for a plain string, or `^^` and the datatype IRI in angle brackets.
pub open spec fn ntriples_literal(lit: Literal) -> Seq<char> {
    let quoted = seq!['"'] + escaped_literal(lit.spec_value()) + seq!['"'];
    match lit.spec_language() {
        Some(lang) => quoted + seq!['@'] + lang,
        None => if lit.spec_datatype() == XSD_STRING@ {
            quoted
        } else {
            quoted + seq!['^', '^'] + ntriples_iri(lit.spec_datatype())
        },
    }
}

/// A term in N-Triples.
pub open spec fn ntriples_term(term: Term) -> Seq<char> {
    match term {
        Term::NamedNode(n) => ntriples_iri(n@),
        Term::BlankNode(b) => displayed_blank(b@),
        Term::Literal(l) => ntriples_literal(l),
    }
}

/// A focus in N-Triples.
pub open spec fn ntriples_focus(focus: FocusTerm) -> Seq<char> {
    match focus {
        FocusTerm::NamedNode(n) => ntriples_iri(n@),
    }
}

/// An IRI written in N-Triples.
pub fn write_ntriples_iri(iri: &str) -> (r: String)
    ensures
        r@ == ntriples_iri(iri@),
{
    let mut s = String::new();
    s.push('<');
    push_all(&mut s, iri);
    s.push('>');
    assert(s@ =~= ntriples_iri(iri@));
    s
}

/// A literal written in N-Triples.
pub fn write_ntriples_literal(lit: &Literal) -> (r: String)
    ensures
        r@ == ntriples_literal(*lit),
{
    let mut s = String::new();
    s.push('"');
    escape_literal_into(&mut s, lit.value());
    s.push('"');
    let ghost quoted = seq!['"'] + escaped_literal(lit.spec_value()) + seq!['"'];
    assert(s@ =~= quoted);
    match lit.language() {
        Some(lang) => {
            s.push('@');
            push_all(&mut s, lang);
            assert(s@ =~= quoted + seq!['@'] + lang@);
        },
        None => {
            let dt = lit.datatype();
            if !str_eq(dt, XSD_STRING) {
                s.push('^');
                s.push('^');
                let d = write_ntriples_iri(dt);
                push_all(&mut s, d.as_str());
                assert(s@ =~= quoted + seq!['^', '^'] + ntriples_iri(lit.spec_datatype()));
            }
        },
    }
    s
}

/// A term written in N-Triples.
pub fn write_ntriples_term(term: &Term) -> (r: String)
    ensures
        r@ == ntriples_term(*term),
{
    match term {
        Term::NamedNode(n) => write_ntriples_iri(n.as_str()),
        Term::BlankNode(b) => display_blank(b),
        Term::Literal(l) => write_ntriples_literal(l),
    }
}

/// A focus written in N-Triples.
pub fn write_ntriples_focus(focus: &FocusTerm) -> (r: String)
    ensures
        r@ == ntriples_focus(*focus),
{
    match focus {
        FocusTerm::NamedNode(n) => write_ntriples_iri(n.as_str()),
    }
}

/// Appends `text`, escaped for a SPARQL string literal, to `out`.
pub fn escape_literal_into(out: &mut String, text: &str)
    ensures
        final(out)@ == old(out)@ + escaped_literal(text@),
{
    let cs = chars_of(text);
    let mut i: usize = 0;
    while i < cs.len()
        invariant
            cs@ == text@,
            0 <= i <= cs@.len(),
            out@ == old(out)@ + escaped_literal(cs@.take(i as int)),
        decreases cs@.len() - i,
    {
        let c = cs[i];
        let ghost before = out@;
        if c == '\\' {
            out.push('\\');
            out.push('\\');
        } else if c == '"' {
            out.push('\\');
            out.push('"');
        } else if c == '\n' {
            out.push('\\');
            out.push('n');
        } else if c == '\r' {
            out.push('\\');
            out.push('r');
        } else if c == '\t' {
            out.push('\\');
            out.push('t');
        } else {
            out.push(c);
        }
        proof {
            let p = cs@.take(i as int);
            let q = cs@.take(i + 1);
            assert(q =~= p.push(c));
            assert(q.map_values(|c: char| escape_code(c)) =~= p.map_values(|c: char| escape_code(c)).push(
                escape_code(c),
            ));
            p.map_values(|c: char| escape_code(c)).lemma_flatten_push(escape_code(c));
            assert(out@ =~= before + escape_code(c));
        }
        i = i + 1;
    }
    assert(cs@.take(cs@.len() as int) =~= cs@);
}


/// A position at which the namespaces of the built-in prefixes `lo` and `hi`
/// (`lo < hi`) differ: `https` against `http:`, then the host, then the
/// path after the host.
spec fn namespaces_split(lo: int, hi: int) -> int {
    if hi == 8 {
        4
    } else if hi == 7 || (lo <= 4 && hi >= 5) {
        7
    } else if hi == 6 {
        19
    } else if lo == 0 {
        18
    } else {
        21
    }
}

/// At most one built-in prefix abbreviates an IRI, so the short form does
/// not depend on the order in which the prefixes are tried.
pub proof fn lemma_builtin_prefixes_exclusive(iri: Seq<char>, k: int)
    requires
        0 <= k < builtin_prefixes().len(),
        prefix_applies(builtin_prefixes()[k], iri),
    ensures
        forall|j: int|
            0 <= j < builtin_prefixes().len() && prefix_applies(builtin_prefixes()[j], iri) ==> j
                == k,
        shortened(iri) == builtin_prefixes()[k].0 + seq![':'] + iri.skip(
            builtin_prefixes()[k].1.len() as int,
        ),
{
    reveal_strlit("rdf");
    reveal_strlit("rdfs");
    reveal_strlit("owl");
    reveal_strlit("xsd");
    reveal_strlit("skos");
    reveal_strlit("dc");
    reveal_strlit("dct");
    reveal_strlit("foaf");
    reveal_strlit("schema");
    reveal_strlit("http://www.w3.org/1999/02/22-rdf-syntax-ns#");
    reveal_strlit("http://www.w3.org/2000/01/rdf-schema#");
    reveal_strlit("http://www.w3.org/2002/07/owl#");
    reveal_strlit("http://www.w3.org/2001/XMLSchema#");
    reveal_strlit("http://www.w3.org/2004/02/skos/core#");
    reveal_strlit("http://purl.org/dc/elements/1.1/");
    reveal_strlit("http://purl.org/dc/terms/");
    reveal_strlit("http://xmlns.com/foaf/0.1/");
    reveal_strlit("https://schema.org/");
    let t = builtin_prefixes();
    assert forall|j: int| 0 <= j < t.len() && prefix_applies(t[j], iri) implies j == k by {
        let a = t[k].1;
        let b = t[j].1;
        assert forall|p: int| 0 <= p < a.len() && 0 <= p < b.len() implies a[p] == b[p] by {
            assert(iri.take(a.len() as int)[p] == a[p]);
            assert(iri.take(b.len() as int)[p] == b[p]);
        }
        if j != k {
            let lo = if j < k { j } else { k };
            let hi = if j < k { k } else { j };
            let p = namespaces_split(lo, hi);
            assert(t[lo].1[p] != t[hi].1[p]);
        }
    }
    let c = choose|c: int| 0 <= c < t.len() && prefix_applies(t[c], iri);
    assert(c == k);
}


/// Once a label is cached for an IRI, the IRI is shown as that label; once
/// it is cached that there is none, the IRI is shown in short form; and
/// caching for one IRI leaves how any other IRI is shown unchanged.
pub proof fn lemma_label_read_after_write(
    ctx: DisplayContext,
    iri: Seq<char>,
    label: Option<Seq<char>>,
    other: Seq<char>,
)
    ensures
        displayed_iri(ctx.labels().insert(iri, label), iri) == match label {
            Some(l) => l,
            None => shortened(iri),
        },
        other != iri ==> displayed_iri(ctx.labels().insert(iri, label), other) == displayed_iri(
            ctx.labels(),
            other,
        ),
{
}

proof fn lemma_escaped_first(s: Seq<char>)
    requires
        s.len() > 0,
    ensures
        escaped_literal(s) == escape_code(s[0]) + escaped_literal(s.drop_first()),
{
    assert(s.map_values(|c: char| escape_code(c)).drop_first() =~= s.drop_first().map_values(
        |c: char| escape_code(c),
    ));
}

proof fn lemma_escaped_empty(s: Seq<char>)
    ensures
        (escaped_literal(s).len() == 0) == (s.len() == 0),
{
    if s.len() > 0 {
        lemma_escaped_first(s);
    } else {
        assert(s.map_values(|c: char| escape_code(c)) =~= Seq::<Seq<char>>::empty());
    }
}

/// Escaping for a SPARQL string literal loses nothing: different texts give
/// different escaped texts.
pub proof fn lemma_escape_injective(a: Seq<char>, b: Seq<char>)
    requires
        escaped_literal(a) == escaped_literal(b),
    ensures
        a == b,
    decreases a.len(),
{
    lemma_escaped_empty(a);
    lemma_escaped_empty(b);
    if a.len() > 0 {
        lemma_escaped_first(a);
        lemma_escaped_first(b);
        let e = escaped_literal(a);
        let ca = escape_code(a[0]);
        let cb = escape_code(b[0]);
        assert(e[0] == ca[0] && e[0] == cb[0]);
        if ca.len() == 2 {
            assert(cb.len() == 2);
            assert(e[1] == ca[1] && e[1] == cb[1]);
        }
        assert(a[0] == b[0]);
        assert(ca =~= cb);
        let ra = escaped_literal(a.drop_first());
        let rb = escaped_literal(b.drop_first());
        assert(ra =~= e.skip(ca.len() as int));
        assert(rb =~= e.skip(cb.len() as int));
        lemma_escape_injective(a.drop_first(), b.drop_first());
        assert(a =~= seq![a[0]] + a.drop_first());
        assert(b =~= seq![b[0]] + b.drop_first());
    }
}

} // verus!
