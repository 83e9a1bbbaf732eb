//! The OpenNARS dialect: a grammar for lexical Narsese in ASCII form that also accepts the
//! operation shorthand `(^op, t1, ..., tn)`, a typed parse tree, and the fold of that tree
//! into a [`Sentence`].
use vstd::prelude::*;
use crate::term::{
    empty_atom_model, fold_model, strings_model, term_model, terms_model, MidParseModel,
    MidParseResult, Sentence, SentenceModel, Term, TermModel,
};

verus! {

// ----- characters -----
/// The classes of characters that the grammar reads in runs.
#[derive(Clone, Copy, PartialEq, Eq, Structural, Debug)]
pub enum CharClass {
    Space,
    Prefix,
    Name,
    Number,
    StampBody,
}

pub open spec fn is_digit(c: char) -> bool {
    '0' as u32 <= c as u32 <= '9' as u32
}

pub open spec fn in_class(c: char, k: CharClass) -> bool {
    match k {
        CharClass::Space => c == ' ' || c == '\t' || c == '\n' || c == '\r',
        CharClass::Prefix => c == '$' || c == '#' || c == '?' || c == '^' || c == '+' || c == '_',
        CharClass::Name => is_digit(c) || ('a' as u32 <= c as u32 <= 'z' as u32) || ('A' as u32
            <= c as u32 <= 'Z' as u32) || c == '_' || c as u32 > 0x7f,
        CharClass::Number => is_digit(c) || c == '.',
        CharClass::StampBody => is_digit(c) || c == '|' || c == '/' || c == '\\' || c == '!'
            || c == '+' || c == '-',
    }
}

fn class_contains(c: char, k: CharClass) -> (r: bool)
    ensures
        r == in_class(c, k),
{
    let u = c as u32;
    let digit = '0' as u32 <= u && u <= '9' as u32;
    match k {
        CharClass::Space => c == ' ' || c == '\t' || c == '\n' || c == '\r',
        CharClass::Prefix => c == '$' || c == '#' || c == '?' || c == '^' || c == '+' || c == '_',
        CharClass::Name => digit || ('a' as u32 <= u && u <= 'z' as u32) || ('A' as u32 <= u && u
            <= 'Z' as u32) || c == '_' || u > 0x7f,
        CharClass::Number => digit || c == '.',
        CharClass::StampBody => digit || c == '|' || c == '/' || c == '\\' || c == '!' || c == '+'
            || c == '-',
    }
}

/// Length of the run of characters of class `k` that starts at `i`.
pub open spec fn run_len(s: Seq<char>, i: int, k: CharClass) -> nat
    decreases s.len() - i,
{
    if 0 <= i < s.len() && in_class(s[i], k) {
        1 + run_len(s, i + 1, k)
    } else {
        0
    }
}

/// The first position at or after `i` that is not whitespace.
pub open spec fn skip_ws(s: Seq<char>, i: int) -> int {
    i + run_len(s, i, CharClass::Space)
}

pub open spec fn at(s: Seq<char>, i: int, c: char) -> bool {
    0 <= i < s.len() && s[i] == c
}

pub open spec fn is_copula(a: char, b: char, c: char) -> bool {
    (a == '-' && b == '-' && c == '>') || (a == '<' && b == '-' && c == '>') || (a == '=' && b
        == '=' && c == '>') || (a == '<' && b == '=' && c == '>') || (a == '{' && b == '-' && c
        == '-') || (a == '-' && b == '-' && c == ']') || (a == '{' && b == '-' && c == ']') || (a
        == '=' && (b == '/' || b == '|' || b == '\\') && c == '>') || (a == '<' && (b == '/' || b
        == '|' || b == '\\') && c == '>')
}

pub open spec fn is_connecter2(a: char, b: char) -> bool {
    (a == '&' && b == '&') || (a == '|' && b == '|') || (a == '-' && b == '-') || (a == '&' && b
        == '/') || (a == '&' && b == '|')
}

pub open spec fn is_connecter1(a: char) -> bool {
    a == '&' || a == '|' || a == '-' || a == '~' || a == '*' || a == '/' || a == '\\'
}

/// Length of the compound connecter at `k`: two-character connecters take precedence.
pub open spec fn connecter_len(s: Seq<char>, k: int) -> nat {
    if 0 <= k && k + 1 < s.len() && is_connecter2(s[k], s[k + 1]) {
        2
    } else if 0 <= k < s.len() && is_connecter1(s[k]) {
        1
    } else {
        0
    }
}

pub open spec fn is_punctuation(c: char) -> bool {
    c == '.' || c == '?' || c == '!' || c == '@'
}


// ----- parse tree -----
/// Model of a [`Node`].
pub enum NodeModel {
    Atom { prefix: Seq<char>, name: Seq<char> },
    Compound { connecter: Seq<char>, terms: Seq<NodeModel> },
    Operation { operator: Box<NodeModel>, terms: Seq<NodeModel> },
    ExtSet { terms: Seq<NodeModel> },
    IntSet { terms: Seq<NodeModel> },
    Statement { subject: Box<NodeModel>, copula: Seq<char>, predicate: Box<NodeModel> },
}

/// A node of the parse tree: one shape of the grammar, not yet folded into a [`Term`].
#[derive(Debug)]
pub enum Node {
    Atom { prefix: String, name: String },
    Compound { connecter: String, terms: Vec<Node> },
    Operation { operator: Box<Node>, terms: Vec<Node> },
    ExtSet { terms: Vec<Node> },
    IntSet { terms: Vec<Node> },
    Statement { subject: Box<Node>, copula: String, predicate: Box<Node> },
}

pub open spec fn empty_node_model() -> NodeModel {
    NodeModel::Atom { prefix: Seq::empty(), name: Seq::empty() }
}

pub open spec fn node_model(n: Node) -> NodeModel
    decreases n,
{
    match n {
        Node::Atom { prefix, name } => NodeModel::Atom { prefix: prefix@, name: name@ },
        Node::Compound { connecter, terms } => NodeModel::Compound {
            connecter: connecter@,
            terms: Seq::new(
                terms@.len(),
                |i: int|
                    if 0 <= i < terms@.len() {
                        node_model(terms@[i])
                    } else {
                        empty_node_model()
                    },
            ),
        },
        Node::Operation { operator, terms } => NodeModel::Operation {
            operator: Box::new(node_model(*operator)),
            terms: Seq::new(
                terms@.len(),
                |i: int|
                    if 0 <= i < terms@.len() {
                        node_model(terms@[i])
                    } else {
                        empty_node_model()
                    },
            ),
        },
        Node::ExtSet { terms } => NodeModel::ExtSet {
            terms: Seq::new(
                terms@.len(),
                |i: int|
                    if 0 <= i < terms@.len() {
                        node_model(terms@[i])
                    } else {
                        empty_node_model()
                    },
            ),
        },
        Node::IntSet { terms } => NodeModel::IntSet {
            terms: Seq::new(
                terms@.len(),
                |i: int|
                    if 0 <= i < terms@.len() {
                        node_model(terms@[i])
                    } else {
                        empty_node_model()
                    },
            ),
        },
        Node::Statement { subject, copula, predicate } => NodeModel::Statement {
            subject: Box::new(node_model(*subject)),
            copula: copula@,
            predicate: Box::new(node_model(*predicate)),
        },
    }
}

impl View for Node {
    type V = NodeModel;

    open spec fn view(&self) -> NodeModel {
        node_model(*self)
    }
}

pub open spec fn nodes_model(v: Seq<Node>) -> Seq<NodeModel> {
    v.map_values(|n: Node| n@)
}

/// Model of an [`Element`].
pub enum ElementModel {
    Budget(Seq<Seq<char>>),
    Term(NodeModel),
    Punctuation(Seq<char>),
    Stamp(Seq<char>),
    Truth(Seq<Seq<char>>),
}

/// A top-level element of a parsed line, in the order in which the line holds it.
#[derive(Debug)]
pub enum Element {
    Budget(Vec<String>),
    Term(Node),
    Punctuation(String),
    Stamp(String),
    Truth(Vec<String>),
}

impl View for Element {
    type V = ElementModel;

    open spec fn view(&self) -> ElementModel {
        match self {
            Element::Budget(v) => ElementModel::Budget(strings_model(v@)),
            Element::Term(n) => ElementModel::Term(n@),
            Element::Punctuation(p) => ElementModel::Punctuation(p@),
            Element::Stamp(s) => ElementModel::Stamp(s@),
            Element::Truth(v) => ElementModel::Truth(strings_model(v@)),
        }
    }
}

pub open spec fn elements_model(v: Seq<Element>) -> Seq<ElementModel> {
    v.map_values(|e: Element| e@)
}

// ----- grammar -----
/// Characters left from position `i` on; zero outside the sequence.
pub open spec fn remaining(s: Seq<char>, i: int) -> nat {
    if 0 <= i < s.len() {
        (s.len() - i) as nat
    } else {
        0
    }
}

/// An atom: a run of prefix characters, then a run of name characters, not both empty.
/// The result pairs the node with the number of characters read.
pub open spec fn atom_spec(s: Seq<char>, i: int) -> Option<(NodeModel, nat)> {
    let p = run_len(s, i, CharClass::Prefix);
    let q = run_len(s, i + p, CharClass::Name);
    if p + q > 0 {
        Some(
            (
                NodeModel::Atom { prefix: s.subrange(i, i + p), name: s.subrange(i + p, i + p + q) },
                (p + q) as nat,
            ),
        )
    } else {
        None
    }
}

/// A term at `i`: `<subject copula predicate>`, `(connecter, terms)`, `(^operator, terms)`,
/// `{terms}`, `[terms]` or an atom; whitespace may stand between the tokens.
pub open spec fn term_spec(s: Seq<char>, i: int) -> Option<(NodeModel, nat)>
    decreases remaining(s, i),
{
    if !(0 <= i < s.len()) {
        None
    } else if s[i] == '<' {
        let k = skip_ws(s, i + 1);
        match term_spec(s, k) {
            None => None,
            Some((subject, ls)) => {
                let c = skip_ws(s, k + ls);
                if c + 3 <= s.len() && is_copula(s[c], s[c + 1], s[c + 2]) {
                    let p = skip_ws(s, c + 3);
                    match term_spec(s, p) {
                        None => None,
                        Some((predicate, lp)) => {
                            let f = skip_ws(s, p + lp);
                            if at(s, f, '>') {
                                Some(
                                    (
                                        NodeModel::Statement {
                                            subject: Box::new(subject),
                                            copula: s.subrange(c, c + 3),
                                            predicate: Box::new(predicate),
                                        },
                                        (f + 1 - i) as nat,
                                    ),
                                )
                            } else {
                                None
                            }
                        },
                    }
                } else {
                    None
                }
            },
        }
    } else if s[i] == '(' {
        let k = skip_ws(s, i + 1);
        if at(s, k, '^') {
            match atom_spec(s, k) {
                None => None,
                Some((operator, lo)) => {
                    let j = skip_ws(s, k + lo);
                    match items_spec(s, j, ')') {
                        None => None,
                        Some((terms, lt)) => Some(
                            (
                                NodeModel::Operation { operator: Box::new(operator), terms },
                                (j + lt - i) as nat,
                            ),
                        ),
                    }
                },
            }
        } else {
            let lc = connecter_len(s, k);
            if lc == 0 {
                None
            } else {
                let j = skip_ws(s, k + lc);
                match items_spec(s, j, ')') {
                    None => None,
                    Some((terms, lt)) => Some(
                        (
                            NodeModel::Compound { connecter: s.subrange(k, k + lc), terms },
                            (j + lt - i) as nat,
                        ),
                    ),
                }
            }
        }
    } else if s[i] == '{' || s[i] == '[' {
        let closer = if s[i] == '{' {
            '}'
        } else {
            ']'
        };
        let k = skip_ws(s, i + 1);
        match term_spec(s, k) {
            None => None,
            Some((first, l)) => {
                let j = skip_ws(s, k + l);
                match items_spec(s, j, closer) {
                    None => None,
                    Some((rest, lt)) => {
                        let terms = seq![first] + rest;
                        let len = (j + lt - i) as nat;
                        if s[i] == '{' {
                            Some((NodeModel::ExtSet { terms }, len))
                        } else {
                            Some((NodeModel::IntSet { terms }, len))
                        }
                    },
                }
            },
        }
    } else {
        atom_spec(s, i)
    }
}

/// The rest of a list of terms at `j`: `, term` repeated, then `closer`.
pub open spec fn items_spec(s: Seq<char>, j: int, closer: char) -> Option<(Seq<NodeModel>, nat)>
    decreases remaining(s, j),
{
    if !(0 <= j < s.len()) {
        None
    } else if s[j] == closer {
        Some((Seq::empty(), 1))
    } else if s[j] == ',' {
        let k = skip_ws(s, j + 1);
        match term_spec(s, k) {
            None => None,
            Some((t, l)) => {
                let e = skip_ws(s, k + l);
                match items_spec(s, e, closer) {
                    None => None,
                    Some((ts, lt)) => Some((seq![t] + ts, (e + lt - j) as nat)),
                }
            },
        }
    } else {
        None
    }
}


/// Values such as `0.5;0.9` read up to `closer`: runs of digits and dots separated by `;`.
pub open spec fn values_spec(s: Seq<char>, j: int, closer: char) -> Option<(Seq<Seq<char>>, nat)>
    decreases remaining(s, j),
{
    let n = run_len(s, j, CharClass::Number);
    if n == 0 {
        None
    } else if at(s, j + n, closer) {
        Some((seq![s.subrange(j, j + n)], n + 1))
    } else if at(s, j + n, ';') {
        match values_spec(s, j + n + 1, closer) {
            None => None,
            Some((vs, l)) => Some((seq![s.subrange(j, j + n)] + vs, n + 1 + l)),
        }
    } else {
        None
    }
}

/// A budget `$..$` or a truth `%..%`: `opener`, values, `closer`; the values may be absent.
pub open spec fn bracketed_spec(s: Seq<char>, i: int, opener: char, closer: char) -> Option<
    (Seq<Seq<char>>, nat),
> {
    if !at(s, i, opener) {
        None
    } else if at(s, i + 1, closer) {
        Some((Seq::empty(), 2))
    } else {
        match values_spec(s, i + 1, closer) {
            None => None,
            Some((vs, l)) => Some((vs, l + 1)),
        }
    }
}

/// A stamp such as `:|:` or `:!12:`, kept with its colons.
pub open spec fn stamp_spec(s: Seq<char>, i: int) -> Option<(Seq<char>, nat)> {
    let n = run_len(s, i + 1, CharClass::StampBody);
    if at(s, i, ':') && n > 0 && at(s, i + 1 + n, ':') {
        Some((s.subrange(i, i + n + 2), n + 2))
    } else {
        None
    }
}

/// A whole line: `[budget] term punctuation [stamp] [truth]`, or a bare term.
pub open spec fn narsese_spec(s: Seq<char>) -> Option<Seq<ElementModel>> {
    let i0 = skip_ws(s, 0);
    let budget = bracketed_spec(s, i0, '$', '$');
    let i1 = match budget {
        Some((_, l)) => skip_ws(s, i0 + l),
        None => i0,
    };
    let head = match budget {
        Some((b, _)) => seq![ElementModel::Budget(b)],
        None => Seq::empty(),
    };
    match term_spec(s, i1) {
        None => None,
        Some((t, lt)) => {
            let p = skip_ws(s, i1 + lt);
            if p == s.len() && budget is None {
                Some(seq![ElementModel::Term(t)])
            } else if 0 <= p < s.len() && is_punctuation(s[p]) {
                let q = skip_ws(s, p + 1);
                let stamp = stamp_spec(s, q);
                let r = match stamp {
                    Some((_, l)) => skip_ws(s, q + l),
                    None => q,
                };
                let truth = bracketed_spec(s, r, '%', '%');
                let z = match truth {
                    Some((_, l)) => skip_ws(s, r + l),
                    None => r,
                };
                let stamp_part = match stamp {
                    Some((st, _)) => seq![ElementModel::Stamp(st)],
                    None => Seq::empty(),
                };
                let truth_part = match truth {
                    Some((tv, _)) => seq![ElementModel::Truth(tv)],
                    None => Seq::empty(),
                };
                if z == s.len() {
                    Some(
                        head + seq![
                            ElementModel::Term(t),
                            ElementModel::Punctuation(s.subrange(p, p + 1)),
                        ] + stamp_part + truth_part,
                    )
                } else {
                    None
                }
            } else {
                None
            }
        },
    }
}

// ----- fold -----
pub open spec fn inheritance_copula() -> Seq<char> {
    seq!['-', '-', '>']
}

pub open spec fn product_connecter() -> Seq<char> {
    seq!['*']
}

/// The term that a parse-tree node stands for. An operation `(^op, t1, ..., tn)` becomes
/// `<(*, t1, ..., tn) --> ^op>`; sets get their brackets; everything else keeps its shape.
pub open spec fn folded(n: NodeModel) -> TermModel
    decreases n,
{
    match n {
        NodeModel::Atom { prefix, name } => TermModel::Atom { prefix, name },
        NodeModel::Compound { connecter, terms } => TermModel::Compound {
            connecter,
            terms: Seq::new(
                terms.len(),
                |i: int|
                    if 0 <= i < terms.len() {
                        folded(terms[i])
                    } else {
                        empty_atom_model()
                    },
            ),
        },
        NodeModel::Operation { operator, terms } => TermModel::Statement {
            copula: inheritance_copula(),
            subject: Box::new(
                TermModel::Compound {
                    connecter: product_connecter(),
                    terms: Seq::new(
                        terms.len(),
                        |i: int|
                            if 0 <= i < terms.len() {
                                folded(terms[i])
                            } else {
                                empty_atom_model()
                            },
                    ),
                },
            ),
            predicate: Box::new(folded(*operator)),
        },
        NodeModel::ExtSet { terms } => TermModel::SetTerm {
            left_bracket: seq!['{'],
            terms: Seq::new(
                terms.len(),
                |i: int|
                    if 0 <= i < terms.len() {
                        folded(terms[i])
                    } else {
                        empty_atom_model()
                    },
            ),
            right_bracket: seq!['}'],
        },
        NodeModel::IntSet { terms } => TermModel::SetTerm {
            left_bracket: seq!['['],
            terms: Seq::new(
                terms.len(),
                |i: int|
                    if 0 <= i < terms.len() {
                        folded(terms[i])
                    } else {
                        empty_atom_model()
                    },
            ),
            right_bracket: seq![']'],
        },
        NodeModel::Statement { subject, copula, predicate } => TermModel::Statement {
            copula,
            subject: Box::new(folded(*subject)),
            predicate: Box::new(folded(*predicate)),
        },
    }
}

/// The folds of a list of nodes, in order.
pub open spec fn folded_all(ns: Seq<NodeModel>) -> Seq<TermModel> {
    ns.map_values(|n: NodeModel| folded(n))
}

/// Installs one element into the accumulator; a later element of a kind replaces an earlier one.
pub open spec fn apply_element(m: MidParseModel, e: ElementModel) -> MidParseModel {
    match e {
        ElementModel::Budget(b) => MidParseModel { budget: Some(b), ..m },
        ElementModel::Term(n) => MidParseModel { term: Some(folded(n)), ..m },
        ElementModel::Punctuation(p) => MidParseModel { punctuation: Some(p), ..m },
        ElementModel::Stamp(st) => MidParseModel { stamp: Some(st), ..m },
        ElementModel::Truth(t) => MidParseModel { truth: Some(t), ..m },
    }
}

pub open spec fn empty_mid() -> MidParseModel {
    MidParseModel { budget: None, term: None, punctuation: None, stamp: None, truth: None }
}

/// The accumulator after installing the elements in order.
pub open spec fn fold_elements(els: Seq<ElementModel>) -> MidParseModel
    decreases els.len(),
{
    if els.len() == 0 {
        empty_mid()
    } else {
        apply_element(fold_elements(els.drop_last()), els.last())
    }
}

/// Why a line is not a sentence of the dialect.
#[derive(Clone, Copy, PartialEq, Eq, Structural, Debug)]
pub enum DialectError {
    /// The line does not follow the grammar.
    Syntax,
    /// The line is a bare term: it has no punctuation.
    IncompleteSentence,
}

/// What parsing a line gives.
pub open spec fn parse_model(s: Seq<char>) -> Result<SentenceModel, DialectError> {
    match narsese_spec(s) {
        None => Err(DialectError::Syntax),
        Some(els) => match fold_model(fold_elements(els)) {
            Some(x) => Ok(x),
            None => Err(DialectError::IncompleteSentence),
        },
    }
}


// ----- executable grammar -----
/// End of the run of class `k` that starts at `i`.
fn run_end(text: &str, n: usize, i: usize, k: CharClass) -> (r: usize)
    requires
        n == text@.len(),
        i <= n,
    ensures
        r == i + run_len(text@, i as int, k),
        r <= n,
{
    let mut j = i;
    while j < n && class_contains(text.get_char(j), k)
        invariant
            n == text@.len(),
            i <= j <= n,
            j + run_len(text@, j as int, k) == i + run_len(text@, i as int, k),
        decreases n - j,
    {
        j = j + 1;
    }
    j
}

fn char_at_is(text: &str, n: usize, i: usize, c: char) -> (r: bool)
    requires
        n == text@.len(),
    ensures
        r == at(text@, i as int, c),
{
    i < n && text.get_char(i) == c
}

/// The characters from `from` to `to`, as a string.
fn slice(text: &str, n: usize, from: usize, to: usize) -> (r: String)
    requires
        n == text@.len(),
        from <= to <= n,
    ensures
        r@ == text@.subrange(from as int, to as int),
{
    String::from_str(text.substring_char(from, to))
}

fn copula_at(text: &str, n: usize, c: usize) -> (r: bool)
    requires
        n == text@.len(),
        c <= n,
    ensures
        r == (c + 3 <= n && is_copula(text@[c as int], text@[c + 1], text@[c + 2])),
{
    if n - c < 3 {
        return false;
    }
    let a = text.get_char(c);
    let b = text.get_char(c + 1);
    let d = text.get_char(c + 2);
    (a == '-' && b == '-' && d == '>') || (a == '<' && b == '-' && d == '>') || (a == '=' && b
        == '=' && d == '>') || (a == '<' && b == '=' && d == '>') || (a == '{' && b == '-' && d
        == '-') || (a == '-' && b == '-' && d == ']') || (a == '{' && b == '-' && d == ']') || (a
        == '=' && (b == '/' || b == '|' || b == '\\') && d == '>') || (a == '<' && (b == '/' || b
        == '|' || b == '\\') && d == '>')
}

fn connecter_at(text: &str, n: usize, k: usize) -> (r: usize)
    requires
        n == text@.len(),
        k <= n,
    ensures
        r == connecter_len(text@, k as int),
{
    if n - k >= 2 {
        let a = text.get_char(k);
        let b = text.get_char(k + 1);
        if (a == '&' && b == '&') || (a == '|' && b == '|') || (a == '-' && b == '-') || (a == '&'
            && b == '/') || (a == '&' && b == '|') {
            return 2;
        }
    }
    if k < n {
        let a = text.get_char(k);
        if a == '&' || a == '|' || a == '-' || a == '~' || a == '*' || a == '/' || a == '\\' {
            return 1;
        }
    }
    0
}

fn parse_atom(text: &str, n: usize, i: usize) -> (r: Option<(Node, usize)>)
    requires
        n == text@.len(),
        i <= n,
    ensures
        match r {
            None => atom_spec(text@, i as int) is None,
            Some((node, e)) => atom_spec(text@, i as int) == Some((node@, (e - i) as nat)) && i
                < e <= n,
        },
{
    let p = run_end(text, n, i, CharClass::Prefix);
    let q = run_end(text, n, p, CharClass::Name);
    if q == i {
        return None;
    }
    let prefix = slice(text, n, i, p);
    let name = slice(text, n, p, q);
    Some((Node::Atom { prefix, name }, q))
}

proof fn lemma_nodes_prepend(t: Node, rest: Seq<Node>, v: Seq<Node>)
    requires
        v == seq![t] + rest,
    ensures
        nodes_model(v) == seq![t@] + nodes_model(rest),
{
    assert(nodes_model(v) =~= seq![t@] + nodes_model(rest));
}

fn parse_term(text: &str, n: usize, i: usize) -> (r: Option<(Node, usize)>)
    requires
        n == text@.len(),
        i <= n,
    ensures
        match r {
            None => term_spec(text@, i as int) is None,
            Some((node, e)) => term_spec(text@, i as int) == Some((node@, (e - i) as nat)) && i
                < e <= n,
        },
    decreases remaining(text@, i as int), 1nat,
{
    if i >= n {
        return None;
    }
    let c = text.get_char(i);
    if c == '<' {
        parse_statement(text, n, i)
    } else if c == '(' {
        parse_compound(text, n, i)
    } else if c == '{' || c == '[' {
        parse_set(text, n, i)
    } else {
        parse_atom(text, n, i)
    }
}

fn parse_statement(text: &str, n: usize, i: usize) -> (r: Option<(Node, usize)>)
    requires
        n == text@.len(),
        i < n,
        text@[i as int] == '<',
    ensures
        match r {
            None => term_spec(text@, i as int) is None,
            Some((node, e)) => term_spec(text@, i as int) == Some((node@, (e - i) as nat)) && i
                < e <= n,
        },
    decreases remaining(text@, i as int), 0nat,
{
    let k = run_end(text, n, i + 1, CharClass::Space);
    let (subject, e1) = match parse_term(text, n, k) {
        None => return None,
        Some(x) => x,
    };
    let cp = run_end(text, n, e1, CharClass::Space);
    if !copula_at(text, n, cp) {
        return None;
    }
    let copula = slice(text, n, cp, cp + 3);
    let p = run_end(text, n, cp + 3, CharClass::Space);
    let (predicate, e2) = match parse_term(text, n, p) {
        None => return None,
        Some(x) => x,
    };
    let f = run_end(text, n, e2, CharClass::Space);
    if !char_at_is(text, n, f, '>') {
        return None;
    }
    Some((Node::Statement { subject: Box::new(subject), copula, predicate: Box::new(predicate) }, f + 1))
}

fn parse_compound(text: &str, n: usize, i: usize) -> (r: Option<(Node, usize)>)
    requires
        n == text@.len(),
        i < n,
        text@[i as int] == '(',
    ensures
        match r {
            None => term_spec(text@, i as int) is None,
            Some((node, e)) => term_spec(text@, i as int) == Some((node@, (e - i) as nat)) && i
                < e <= n,
        },
    decreases remaining(text@, i as int), 0nat,
{
    let k = run_end(text, n, i + 1, CharClass::Space);
    if char_at_is(text, n, k, '^') {
        let (operator, e1) = match parse_atom(text, n, k) {
            None => {
                assert(term_spec(text@, i as int) is None);
                return None;
            },
            Some(x) => x,
        };
        let j = run_end(text, n, e1, CharClass::Space);
        let (terms, e2) = match parse_items(text, n, j, ')') {
            None => {
                assert(term_spec(text@, i as int) is None);
                return None;
            },
            Some(x) => x,
        };
        let ghost tv = terms@;
        let node = Node::Operation { operator: Box::new(operator), terms };
        assert(node@->Operation_terms =~= nodes_model(tv));
        Some((node, e2))
    } else {
        let lc = connecter_at(text, n, k);
        if lc == 0 {
            assert(term_spec(text@, i as int) is None);
            return None;
        }
        let connecter = slice(text, n, k, k + lc);
        let j = run_end(text, n, k + lc, CharClass::Space);
        let (terms, e2) = match parse_items(text, n, j, ')') {
            None => {
                assert(term_spec(text@, i as int) is None);
                return None;
            },
            Some(x) => x,
        };
        let ghost tv = terms@;
        let node = Node::Compound { connecter, terms };
        assert(node@->Compound_terms =~= nodes_model(tv));
        Some((node, e2))
    }
}

fn parse_set(text: &str, n: usize, i: usize) -> (r: Option<(Node, usize)>)
    requires
        n == text@.len(),
        i < n,
        text@[i as int] == '{' || text@[i as int] == '[',
    ensures
        match r {
            None => term_spec(text@, i as int) is None,
            Some((node, e)) => term_spec(text@, i as int) == Some((node@, (e - i) as nat)) && i
                < e <= n,
        },
    decreases remaining(text@, i as int), 0nat,
{
    let c = text.get_char(i);
    let closer = if c == '{' {
        '}'
    } else {
        ']'
    };
    let k = run_end(text, n, i + 1, CharClass::Space);
    let (first, e1) = match parse_term(text, n, k) {
        None => return None,
        Some(x) => x,
    };
    let j = run_end(text, n, e1, CharClass::Space);
    let (mut rest, e2) = match parse_items(text, n, j, closer) {
        None => return None,
        Some(x) => x,
    };
    let ghost rest0 = rest@;
    let ghost first0 = first;
    let mut terms: Vec<Node> = Vec::new();
    terms.push(first);
    terms.append(&mut rest);
    proof {
        lemma_nodes_prepend(first0, rest0, terms@);
    }
    let ghost tv = terms@;
    if c == '{' {
        let node = Node::ExtSet { terms };
        assert(node@->ExtSet_terms =~= nodes_model(tv));
        Some((node, e2))
    } else {
        let node = Node::IntSet { terms };
        assert(node@->IntSet_terms =~= nodes_model(tv));
        Some((node, e2))
    }
}

fn parse_items(text: &str, n: usize, j: usize, closer: char) -> (r: Option<(Vec<Node>, usize)>)
    requires
        n == text@.len(),
        j <= n,
    ensures
        match r {
            None => items_spec(text@, j as int, closer) is None,
            Some((v, e)) => items_spec(text@, j as int, closer) == Some(
                (nodes_model(v@), (e - j) as nat),
            ) && j < e <= n,
        },
    decreases remaining(text@, j as int), 1nat,
{
    if j >= n {
        return None;
    }
    let c = text.get_char(j);
    if c == closer {
        proof {
            assert(nodes_model(Seq::<Node>::empty()) =~= Seq::<NodeModel>::empty());
        }
        return Some((Vec::new(), j + 1));
    }
    if c != ',' {
        return None;
    }
    let k = run_end(text, n, j + 1, CharClass::Space);
    let (t, e1) = match parse_term(text, n, k) {
        None => return None,
        Some(x) => x,
    };
    let e = run_end(text, n, e1, CharClass::Space);
    let (mut rest, e2) = match parse_items(text, n, e, closer) {
        None => return None,
        Some(x) => x,
    };
    let ghost rest0 = rest@;
    let ghost t0 = t;
    let mut v: Vec<Node> = Vec::new();
    v.push(t);
    v.append(&mut rest);
    proof {
        lemma_nodes_prepend(t0, rest0, v@);
    }
    Some((v, e2))
}


fn parse_values(text: &str, n: usize, j: usize, closer: char) -> (r: Option<(Vec<String>, usize)>)
    requires
        n == text@.len(),
        j <= n,
    ensures
        match r {
            None => values_spec(text@, j as int, closer) is None,
            Some((v, e)) => values_spec(text@, j as int, closer) == Some(
                (strings_model(v@), (e - j) as nat),
            ) && j < e <= n,
        },
    decreases remaining(text@, j as int),
{
    let q = run_end(text, n, j, CharClass::Number);
    if q == j {
        return None;
    }
    let value = slice(text, n, j, q);
    let ghost value0 = value;
    if char_at_is(text, n, q, closer) {
        let mut v: Vec<String> = Vec::new();
        v.push(value);
        assert(strings_model(v@) =~= seq![value0@]);
        return Some((v, q + 1));
    }
    if !char_at_is(text, n, q, ';') {
        return None;
    }
    let (mut rest, e) = match parse_values(text, n, q + 1, closer) {
        None => return None,
        Some(x) => x,
    };
    let ghost rest0 = rest@;
    let mut v: Vec<String> = Vec::new();
    v.push(value);
    v.append(&mut rest);
    assert(strings_model(v@) =~= seq![value0@] + strings_model(rest0));
    Some((v, e))
}

fn parse_bracketed(text: &str, n: usize, i: usize, opener: char, closer: char) -> (r: Option<
    (Vec<String>, usize),
>)
    requires
        n == text@.len(),
        i <= n,
    ensures
        match r {
            None => bracketed_spec(text@, i as int, opener, closer) is None,
            Some((v, e)) => bracketed_spec(text@, i as int, opener, closer) == Some(
                (strings_model(v@), (e - i) as nat),
            ) && i < e <= n,
        },
{
    if !char_at_is(text, n, i, opener) {
        return None;
    }
    if char_at_is(text, n, i + 1, closer) {
        assert(strings_model(Seq::<String>::empty()) =~= Seq::<Seq<char>>::empty());
        return Some((Vec::new(), i + 2));
    }
    parse_values(text, n, i + 1, closer)
}

fn parse_stamp(text: &str, n: usize, i: usize) -> (r: Option<(String, usize)>)
    requires
        n == text@.len(),
        i <= n,
    ensures
        match r {
            None => stamp_spec(text@, i as int) is None,
            Some((st, e)) => stamp_spec(text@, i as int) == Some((st@, (e - i) as nat)) && i < e
                <= n,
        },
{
    if !char_at_is(text, n, i, ':') {
        return None;
    }
    let q = run_end(text, n, i + 1, CharClass::StampBody);
    if q == i + 1 || !char_at_is(text, n, q, ':') {
        return None;
    }
    Some((slice(text, n, i, q + 1), q + 1))
}

/// The parser of the dialect's grammar.
pub struct DialectParser;

impl DialectParser {
    /// Reads a whole line into its top-level elements, in order; `None` when the line does not
    /// follow the grammar.
    pub fn parse_elements(text: &str) -> (r: Option<Vec<Element>>)
        ensures
            match r {
                None => narsese_spec(text@) is None,
                Some(v) => narsese_spec(text@) == Some(elements_model(v@)),
            },
    {
        let n = text.unicode_len();
        let ghost s = text@;
        let mut els: Vec<Element> = Vec::new();
        let i0 = run_end(text, n, 0, CharClass::Space);
        let budget = parse_bracketed(text, n, i0, '$', '$');
        let has_budget = budget.is_some();
        let i1 = match budget {
            Some((b, l)) => {
                els.push(Element::Budget(b));
                run_end(text, n, l, CharClass::Space)
            },
            None => i0,
        };
        let ghost head = elements_model(els@);
        let (t, e) = match parse_term(text, n, i1) {
            None => return None,
            Some(x) => x,
        };
        let p = run_end(text, n, e, CharClass::Space);
        if p == n && !has_budget {
            let mut only: Vec<Element> = Vec::new();
            only.push(Element::Term(t));
            assert(elements_model(only@) =~= seq![ElementModel::Term(t@)]);
            return Some(only);
        }
        if p >= n {
            return None;
        }
        let pc = text.get_char(p);
        if !(pc == '.' || pc == '?' || pc == '!' || pc == '@') {
            return None;
        }
        let ghost tm = t@;
        els.push(Element::Term(t));
        els.push(Element::Punctuation(slice(text, n, p, p + 1)));
        let ghost mid = elements_model(els@);
        assert(mid =~= head + seq![
            ElementModel::Term(tm),
            ElementModel::Punctuation(s.subrange(p as int, p + 1)),
        ]);
        let q = run_end(text, n, p + 1, CharClass::Space);
        let ghost stamp_part: Seq<ElementModel>;
        let r = match parse_stamp(text, n, q) {
            Some((st, l)) => {
                proof {
                    stamp_part = seq![ElementModel::Stamp(st@)];
                }
                els.push(Element::Stamp(st));
                run_end(text, n, l, CharClass::Space)
            },
            None => {
                proof {
                    stamp_part = Seq::empty();
                }
                q
            },
        };
        assert(elements_model(els@) =~= mid + stamp_part);
        let ghost truth_part: Seq<ElementModel>;
        let z = match parse_bracketed(text, n, r, '%', '%') {
            Some((tv, l)) => {
                proof {
                    truth_part = seq![ElementModel::Truth(strings_model(tv@))];
                }
                els.push(Element::Truth(tv));
                run_end(text, n, l, CharClass::Space)
            },
            None => {
                proof {
                    truth_part = Seq::empty();
                }
                r
            },
        };
        assert(elements_model(els@) =~= mid + stamp_part + truth_part);
        if z != n {
            return None;
        }
        Some(els)
    }
}


// ----- executable fold -----
proof fn lemma_folded_all_push(ns: Seq<NodeModel>, k: int)
    requires
        0 <= k < ns.len(),
    ensures
        folded_all(ns.subrange(0, k + 1)) == folded_all(ns.subrange(0, k)).push(folded(ns[k])),
{
    assert(folded_all(ns.subrange(0, k + 1)) =~= folded_all(ns.subrange(0, k)).push(
        folded(ns[k]),
    ));
}

/// Folds each node of a list, in order.
fn fold_terms(ns: &Vec<Node>) -> (r: Vec<Term>)
    ensures
        terms_model(r@) == folded_all(nodes_model(ns@)),
    decreases ns,
{
    let mut out: Vec<Term> = Vec::new();
    let mut k: usize = 0;
    while k < ns.len()
        invariant
            k <= ns@.len(),
            terms_model(out@) == folded_all(nodes_model(ns@).subrange(0, k as int)),
        decreases ns@.len() - k,
    {
        let t = fold_term(&ns[k]);
        proof {
            lemma_folded_all_push(nodes_model(ns@), k as int);
            assert(terms_model(out@.push(t)) =~= terms_model(out@).push(t@));
        }
        out.push(t);
        k = k + 1;
    }
    assert(nodes_model(ns@).subrange(0, k as int) =~= nodes_model(ns@));
    out
}

/// Folds an atom node.
fn fold_atom(prefix: &String, name: &String) -> (r: Term)
    ensures
        r@ == folded(NodeModel::Atom { prefix: prefix@, name: name@ }),
{
    Term::Atom { prefix: prefix.clone(), name: name.clone() }
}

/// Folds a statement node.
fn fold_statement(n: &Node) -> (r: Term)
    requires
        n is Statement,
    ensures
        r@ == folded(n@),
    decreases n, 1nat,
{
    match n {
        Node::Statement { subject, copula, predicate } => {
            let s = fold_term(subject);
            let p = fold_term(predicate);
            Term::Statement { copula: copula.clone(), subject: Box::new(s), predicate: Box::new(p) }
        },
        _ => {
            // Excluded by the precondition.
            Term::Atom { prefix: String::new(), name: String::new() }
        },
    }
}

/// A list of folded terms, viewed element by element, is the fold of the list of nodes.
proof fn lemma_fold_list(ts: Seq<Term>, ns: Seq<Node>, a: Seq<TermModel>, b: Seq<TermModel>)
    requires
        terms_model(ts) == folded_all(nodes_model(ns)),
        a.len() == ts.len(),
        forall|i: int| 0 <= i < ts.len() ==> #[trigger] a[i] == term_model(ts[i]),
        b.len() == ns.len(),
        forall|i: int| 0 <= i < ns.len() ==> #[trigger] b[i] == folded(node_model(ns[i])),
    ensures
        a == b,
{
    assert(terms_model(ts).len() == ts.len());
    assert(folded_all(nodes_model(ns)).len() == ns.len());
    assert forall|i: int| 0 <= i < a.len() implies a[i] == b[i] by {
        assert(terms_model(ts)[i] == ts[i]@);
        assert(nodes_model(ns)[i] == ns[i]@);
        assert(folded_all(nodes_model(ns))[i] == folded(nodes_model(ns)[i]));
    }
    assert(a =~= b);
}

/// Folds one of the four compound shapes: a generic compound, an operation, or a set.
fn fold_compound(n: &Node) -> (r: Term)
    requires
        n is Compound || n is Operation || n is ExtSet || n is IntSet,
    ensures
        r@ == folded(n@),
    decreases n, 1nat,
{
    match n {
        Node::Compound { connecter, terms } => {
            let ts = fold_terms(terms);
            let t = Term::Compound { connecter: connecter.clone(), terms: ts };
            proof {
                lemma_fold_list(ts@, terms@, t@->Compound_terms, folded(n@)->Compound_terms);
            }
            t
        },
        Node::Operation { operator, terms } => {
            let args = fold_terms(terms);
            let predicate = fold_term(operator);
            proof {
                reveal_strlit("-->");
                reveal_strlit("*");
            }
            let product = Term::Compound { connecter: String::from_str("*"), terms: args };
            let t = Term::Statement {
                copula: String::from_str("-->"),
                subject: Box::new(product),
                predicate: Box::new(predicate),
            };
            proof {
                lemma_fold_list(
                    args@,
                    terms@,
                    product@->Compound_terms,
                    folded(n@)->Statement_subject->Compound_terms,
                );
                assert(product@->Compound_connecter =~= product_connecter());
                assert(t@->Statement_copula =~= inheritance_copula());
            }
            t
        },
        Node::ExtSet { terms } => {
            let ts = fold_terms(terms);
            proof {
                reveal_strlit("{");
                reveal_strlit("}");
            }
            let t = Term::SetTerm {
                left_bracket: String::from_str("{"),
                terms: ts,
                right_bracket: String::from_str("}"),
            };
            proof {
                lemma_fold_list(ts@, terms@, t@->SetTerm_terms, folded(n@)->SetTerm_terms);
                assert(t@->SetTerm_left_bracket =~= seq!['{']);
                assert(t@->SetTerm_right_bracket =~= seq!['}']);
            }
            t
        },
        Node::IntSet { terms } => {
            let ts = fold_terms(terms);
            proof {
                reveal_strlit("[");
                reveal_strlit("]");
            }
            let t = Term::SetTerm {
                left_bracket: String::from_str("["),
                terms: ts,
                right_bracket: String::from_str("]"),
            };
            proof {
                lemma_fold_list(ts@, terms@, t@->SetTerm_terms, folded(n@)->SetTerm_terms);
                assert(t@->SetTerm_left_bracket =~= seq!['[']);
                assert(t@->SetTerm_right_bracket =~= seq![']']);
            }
            t
        },
        _ => {
            // Excluded by the precondition.
            Term::Atom { prefix: String::new(), name: String::new() }
        },
    }
}

/// Folds a node into the term it stands for, dispatching on its kind.
pub fn fold_term(n: &Node) -> (r: Term)
    ensures
        r@ == folded(n@),
    decreases n, 2nat,
{
    match n {
        Node::Atom { prefix, name } => fold_atom(prefix, name),
        Node::Statement { .. } => fold_statement(n),
        _ => fold_compound(n),
    }
}


fn clone_strings(v: &Vec<String>) -> (r: Vec<String>)
    ensures
        strings_model(r@) == strings_model(v@),
{
    let mut out: Vec<String> = Vec::new();
    let mut k: usize = 0;
    while k < v.len()
        invariant
            k <= v@.len(),
            strings_model(out@) =~= strings_model(v@.subrange(0, k as int)),
        decreases v@.len() - k,
    {
        let x = v[k].clone();
        proof {
            assert(v@.subrange(0, k + 1) =~= v@.subrange(0, k as int).push(x));
            assert(strings_model(out@.push(x)) =~= strings_model(out@).push(x@));
            assert(strings_model(v@.subrange(0, k as int).push(x)) =~= strings_model(
                v@.subrange(0, k as int),
            ).push(x@));
        }
        out.push(x);
        k = k + 1;
    }
    assert(v@.subrange(0, k as int) =~= v@);
    out
}

/// Installs one element into the accumulator; a later element of a kind replaces an earlier one.
pub fn fold_procedural(e: &Element, result: &mut MidParseResult)
    ensures
        final(result)@ == apply_element(old(result)@, e@),
{
    match e {
        Element::Budget(b) => result.budget = Some(clone_strings(b)),
        Element::Term(n) => result.term = Some(fold_term(n)),
        Element::Punctuation(p) => result.punctuation = Some(p.clone()),
        Element::Stamp(st) => result.stamp = Some(st.clone()),
        Element::Truth(t) => result.truth = Some(clone_strings(t)),
    }
}

/// Folds the elements of a parsed line into a sentence; a line without a term and a
/// punctuation is an incomplete sentence.
pub fn fold_parsed(els: &Vec<Element>) -> (r: Result<Sentence, DialectError>)
    ensures
        match r {
            Ok(x) => fold_model(fold_elements(elements_model(els@))) == Some(x@),
            Err(e) => e == DialectError::IncompleteSentence && fold_model(
                fold_elements(elements_model(els@)),
            ) is None,
        },
{
    let mut result = MidParseResult::new();
    let ghost m = elements_model(els@);
    assert(result@ == fold_elements(m.subrange(0, 0)));
    let mut k: usize = 0;
    while k < els.len()
        invariant
            k <= els@.len(),
            m == elements_model(els@),
            result@ == fold_elements(m.subrange(0, k as int)),
        decreases els@.len() - k,
    {
        fold_procedural(&els[k], &mut result);
        assert(m.subrange(0, k + 1).drop_last() =~= m.subrange(0, k as int));
        k = k + 1;
    }
    assert(m.subrange(0, k as int) =~= m);
    match result.fold() {
        Some(x) => Ok(x),
        None => Err(DialectError::IncompleteSentence),
    }
}

/// Parses one line of the dialect into a sentence: first the grammar, then the fold.
pub fn parse(input: &str) -> (r: Result<Sentence, DialectError>)
    ensures
        match r {
            Ok(x) => parse_model(input@) == Ok::<SentenceModel, DialectError>(x@),
            Err(e) => parse_model(input@) == Err::<SentenceModel, DialectError>(e),
        },
{
    match DialectParser::parse_elements(input) {
        None => Err(DialectError::Syntax),
        Some(els) => fold_parsed(&els),
    }
}

} // verus!
