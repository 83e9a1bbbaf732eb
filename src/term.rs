//! Lexical Narsese terms and sentences, with their mathematical models.
use vstd::prelude::*;

verus! {

/// Mathematical model of a [`Term`]: the same tree over character sequences.
pub enum TermModel {
    Atom { prefix: Seq<char>, name: Seq<char> },
    Compound { connecter: Seq<char>, terms: Seq<TermModel> },
    SetTerm { left_bracket: Seq<char>, terms: Seq<TermModel>, right_bracket: Seq<char> },
    Statement { copula: Seq<char>, subject: Box<TermModel>, predicate: Box<TermModel> },
}

/// A lexical Narsese term: an owned tree without sharing.
#[derive(Debug, PartialEq, Eq)]
pub enum Term {
    Atom { prefix: String, name: String },
    Compound { connecter: String, terms: Vec<Term> },
    SetTerm { left_bracket: String, terms: Vec<Term>, right_bracket: String },
    Statement { copula: String, subject: Box<Term>, predicate: Box<Term> },
}

/// The placeholder that never occurs in a view: `terms_model` only reads in-range indices.
pub open spec fn empty_atom_model() -> TermModel {
    TermModel::Atom { prefix: Seq::empty(), name: Seq::empty() }
}

pub open spec fn term_model(t: Term) -> TermModel
    decreases t,
{
    match t {
        Term::Atom { prefix, name } => TermModel::Atom { prefix: prefix@, name: name@ },
        Term::Compound { connecter, terms } => TermModel::Compound {
            connecter: connecter@,
            terms: Seq::new(
                terms@.len(),
                |i: int|
                    if 0 <= i < terms@.len() {
                        term_model(terms@[i])
                    } else {
                        empty_atom_model()
                    },
            ),
        },
        Term::SetTerm { left_bracket, terms, right_bracket } => TermModel::SetTerm {
            left_bracket: left_bracket@,
            terms: Seq::new(
                terms@.len(),
                |i: int|
                    if 0 <= i < terms@.len() {
                        term_model(terms@[i])
                    } else {
                        empty_atom_model()
                    },
            ),
            right_bracket: right_bracket@,
        },
        Term::Statement { copula, subject, predicate } => TermModel::Statement {
            copula: copula@,
            subject: Box::new(term_model(*subject)),
            predicate: Box::new(term_model(*predicate)),
        },
    }
}

impl View for Term {
    type V = TermModel;

    open spec fn view(&self) -> TermModel {
        term_model(*self)
    }
}

/// The models of a list of terms, in order.
pub open spec fn terms_model(ts: Seq<Term>) -> Seq<TermModel> {
    ts.map_values(|t: Term| t@)
}

/// The models of a list of strings, in order.
pub open spec fn strings_model(v: Seq<String>) -> Seq<Seq<char>> {
    v.map_values(|x: String| x@)
}

/// Model of a [`Sentence`]; a sentence with a budget is a task.
pub struct SentenceModel {
    pub budget: Option<Seq<Seq<char>>>,
    pub term: TermModel,
    pub punctuation: Seq<char>,
    pub stamp: Seq<char>,
    pub truth: Seq<Seq<char>>,
}

/// A lexical sentence: term, punctuation, stamp and truth, with a budget when it is a task.
/// An absent stamp or truth is empty.
#[derive(Debug, PartialEq, Eq)]
pub struct Sentence {
    pub budget: Option<Vec<String>>,
    pub term: Term,
    pub punctuation: String,
    pub stamp: String,
    pub truth: Vec<String>,
}

pub open spec fn budget_model(b: Option<Vec<String>>) -> Option<Seq<Seq<char>>> {
    match b {
        Some(v) => Some(strings_model(v@)),
        None => None,
    }
}

impl View for Sentence {
    type V = SentenceModel;

    open spec fn view(&self) -> SentenceModel {
        SentenceModel {
            budget: budget_model(self.budget),
            term: self.term@,
            punctuation: self.punctuation@,
            stamp: self.stamp@,
            truth: strings_model(self.truth@),
        }
    }
}

/// Model of a [`MidParseResult`].
pub struct MidParseModel {
    pub budget: Option<Seq<Seq<char>>>,
    pub term: Option<TermModel>,
    pub punctuation: Option<Seq<char>>,
    pub stamp: Option<Seq<char>>,
    pub truth: Option<Seq<Seq<char>>>,
}

/// The accumulator that a parse fills, in any order, before it is folded into a sentence.
pub struct MidParseResult {
    pub budget: Option<Vec<String>>,
    pub term: Option<Term>,
    pub punctuation: Option<String>,
    pub stamp: Option<String>,
    pub truth: Option<Vec<String>>,
}

impl View for MidParseResult {
    type V = MidParseModel;

    open spec fn view(&self) -> MidParseModel {
        MidParseModel {
            budget: budget_model(self.budget),
            term: match self.term {
                Some(t) => Some(t@),
                None => None,
            },
            punctuation: match self.punctuation {
                Some(p) => Some(p@),
                None => None,
            },
            stamp: match self.stamp {
                Some(s) => Some(s@),
                None => None,
            },
            truth: match self.truth {
                Some(v) => Some(strings_model(v@)),
                None => None,
            },
        }
    }
}

/// Folding succeeds exactly when a term and a punctuation are present.
pub open spec fn fold_model(m: MidParseModel) -> Option<SentenceModel> {
    match (m.term, m.punctuation) {
        (Some(term), Some(punctuation)) => Some(
            SentenceModel {
                budget: m.budget,
                term,
                punctuation,
                stamp: match m.stamp {
                    Some(s) => s,
                    None => Seq::empty(),
                },
                truth: match m.truth {
                    Some(t) => t,
                    None => Seq::empty(),
                },
            },
        ),
        _ => None,
    }
}

impl MidParseResult {
    /// The empty accumulator.
    pub fn new() -> (r: MidParseResult)
        ensures
            r@.budget is None,
            r@.term is None,
            r@.punctuation is None,
            r@.stamp is None,
            r@.truth is None,
    {
        MidParseResult { budget: None, term: None, punctuation: None, stamp: None, truth: None }
    }

    /// Folds the accumulator into a sentence; `None` when the term or the punctuation is missing.
    pub fn fold(self) -> (r: Option<Sentence>)
        ensures
            match r {
                Some(s) => fold_model(self@) == Some(s@),
                None => fold_model(self@) is None,
            },
    {
        match (self.term, self.punctuation) {
            (Some(term), Some(punctuation)) => {
                let stamp = match self.stamp {
                    Some(s) => s,
                    None => String::new(),
                };
                let truth = match self.truth {
                    Some(t) => t,
                    None => Vec::new(),
                };
                proof {
                    assert(strings_model(Seq::<String>::empty()) =~= Seq::<Seq<char>>::empty());
                }
                Some(Sentence { budget: self.budget, term, punctuation, stamp, truth })
            },
            _ => None,
        }
    }
}

} // verus!
