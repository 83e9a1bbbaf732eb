//! Structural matching of output events against expectations, and the ordered cache of
//! received events.
use vstd::prelude::*;
use crate::output::{output_kind, output_narsese, output_operation, Operation, Output, OutputKind};
use crate::term::{term_model, terms_model, Term, TermModel};
use core::ops::ControlFlow;

verus! {

/// A sequence given element by element is the model of a list of terms.
proof fn lemma_terms_seq(ts: Seq<Term>, v: Seq<TermModel>)
    requires
        v.len() == ts.len(),
        forall|i: int| 0 <= i < ts.len() ==> #[trigger] v[i] == term_model(ts[i]),
    ensures
        v == terms_model(ts),
{
    assert(v =~= terms_model(ts));
}

/// Whether two lists of terms are equal, term by term.
pub fn terms_equal(xs: &Vec<Term>, ys: &Vec<Term>) -> (r: bool)
    ensures
        r == (terms_model(xs@) == terms_model(ys@)),
    decreases xs, 0nat,
{
    if xs.len() != ys.len() {
        assert(terms_model(xs@).len() != terms_model(ys@).len());
        return false;
    }
    let mut i: usize = 0;
    while i < xs.len()
        invariant
            xs@.len() == ys@.len(),
            i <= xs@.len(),
            forall|j: int| 0 <= j < i ==> #[trigger] xs@[j]@ == ys@[j]@,
        decreases xs@.len() - i,
    {
        if !term_equal(&xs[i], &ys[i]) {
            assert(terms_model(xs@)[i as int] != terms_model(ys@)[i as int]);
            return false;
        }
        i = i + 1;
    }
    assert(terms_model(xs@) =~= terms_model(ys@));
    true
}

/// Structural equality of terms: same shape, same strings, same order of components.
pub fn term_equal(a: &Term, b: &Term) -> (r: bool)
    ensures
        r == (a@ == b@),
    decreases a, 1nat,
{
    match (a, b) {
        (Term::Atom { prefix: p1, name: n1 }, Term::Atom { prefix: p2, name: n2 }) => {
            *p1 == *p2 && *n1 == *n2
        },
        (
            Term::Compound { connecter: c1, terms: t1 },
            Term::Compound { connecter: c2, terms: t2 },
        ) => {
            proof {
                lemma_terms_seq(t1@, a@->Compound_terms);
                lemma_terms_seq(t2@, b@->Compound_terms);
            }
            *c1 == *c2 && terms_equal(t1, t2)
        },
        (
            Term::SetTerm { left_bracket: l1, terms: t1, right_bracket: r1 },
            Term::SetTerm { left_bracket: l2, terms: t2, right_bracket: r2 },
        ) => {
            proof {
                lemma_terms_seq(t1@, a@->SetTerm_terms);
                lemma_terms_seq(t2@, b@->SetTerm_terms);
            }
            *l1 == *l2 && *r1 == *r2 && terms_equal(t1, t2)
        },
        (
            Term::Statement { copula: c1, subject: s1, predicate: p1 },
            Term::Statement { copula: c2, subject: s2, predicate: p2 },
        ) => {
            *c1 == *c2 && term_equal(s1, s2) && term_equal(p1, p2)
        },
        _ => false,
    }
}

/// Whether two operations have the same operator and the same arguments.
pub fn operation_equal(a: &Operation, b: &Operation) -> (r: bool)
    ensures
        r == (a@ == b@),
{
    a.operator_name == b.operator_name && terms_equal(&a.params, &b.params)
}

/// What an output is expected to be. An absent field matches anything.
pub struct OutputExpectation {
    pub output_type: Option<OutputKind>,
    pub narsese: Option<Term>,
    pub operation: Option<Operation>,
}

/// An event matches when every present field of the expectation matches it: the kind is
/// equal, the term is structurally equal, the operation has the same name and arguments.
pub open spec fn expectation_matches(e: OutputExpectation, o: Output) -> bool {
    &&& match e.output_type {
        Some(k) => output_kind(o) == k,
        None => true,
    }
    &&& match e.narsese {
        Some(t) => output_narsese(o) == Some(t@),
        None => true,
    }
    &&& match e.operation {
        Some(op) => output_operation(o) == Some(op@),
        None => true,
    }
}

impl OutputExpectation {
    /// Whether an output matches this expectation.
    pub fn matches(&self, output: &Output) -> (r: bool)
        ensures
            r == expectation_matches(*self, *output),
    {
        if let Some(expected) = &self.output_type {
            if *expected != output.kind() {
                return false;
            }
        }
        match (&self.narsese, output.get_narsese()) {
            (Some(_), None) => return false,
            (Some(expected), Some(out)) => {
                if !term_equal(expected, out) {
                    return false;
                }
            },
            _ => {},
        }
        match (&self.operation, output.get_operation()) {
            (None, _) => true,
            (Some(_), None) => false,
            (Some(expected), Some(out)) => operation_equal(expected, out),
        }
    }
}

// ----- output cache -----
/// Where each event that enters a cache is shown.
pub trait OutputSink {
    fn on_append(&mut self, output: &Output);
}

/// The ordered log of received events, oldest first.
pub struct OutputCache {
    inner: Vec<Output>,
}

impl View for OutputCache {
    type V = Seq<Output>;

    closed spec fn view(&self) -> Seq<Output> {
        self.inner@
    }
}

impl Default for OutputCache {
    /// The empty cache.
    fn default() -> (r: OutputCache)
        ensures
            r@ == Seq::<Output>::empty(),
    {
        OutputCache { inner: Vec::new() }
    }
}

/// The position of the first event, from `from` on, that matches, if any.
pub open spec fn first_match_from(outputs: Seq<Output>, e: OutputExpectation, from: int) -> Option<
    int,
>
    decreases outputs.len() - from,
{
    if 0 <= from < outputs.len() {
        if expectation_matches(e, outputs[from]) {
            Some(from)
        } else {
            first_match_from(outputs, e, from + 1)
        }
    } else {
        None
    }
}

impl OutputCache {
    pub fn new(inner: Vec<Output>) -> (r: OutputCache)
        ensures
            r@ == inner@,
    {
        OutputCache { inner }
    }

    pub fn borrow_inner(&self) -> (r: &Vec<Output>)
        ensures
            r@ == self@,
    {
        &self.inner
    }

    pub fn borrow_inner_mut(&mut self) -> (r: &mut Vec<Output>)
        ensures
            r@ == old(self)@,
            final(self)@ == final(r)@,
    {
        &mut self.inner
    }

    pub fn len(&self) -> (r: usize)
        ensures
            r == self@.len(),
    {
        self.inner.len()
    }

    /// Appends an event without showing it.
    pub fn put_silent(&mut self, output: Output)
        ensures
            final(self)@ == old(self)@.push(output),
    {
        self.inner.push(output);
    }

    /// Shows an event on the sink, then appends it.
    pub fn put<S: OutputSink>(&mut self, output: Output, sink: &mut S)
        ensures
            final(self)@ == old(self)@.push(output),
    {
        sink.on_append(&output);
        self.put_silent(output);
    }

    /// Appends events in the order given, showing each.
    pub fn put_all<S: OutputSink>(&mut self, outputs: Vec<Output>, sink: &mut S)
        ensures
            final(self)@ == old(self)@ + outputs@,
    {
        let mut rest = outputs;
        let ghost start = self@;
        let ghost given = rest@;
        while rest.len() > 0
            invariant
                self@ + rest@ == start + given,
            decreases rest@.len(),
        {
            let ghost before = rest@;
            let o = rest.remove(0);
            assert(before =~= seq![o] + rest@);
            self.put(o, sink);
            assert(self@ + rest@ =~= start + given);
        }
        assert(self@ =~= start + given);
    }

    /// Visits the events oldest first; stops at the first visit that breaks, with its value.
    pub fn for_each<T, F: Fn(&Output) -> ControlFlow<T>>(&self, f: F) -> (r: Option<T>)
        requires
            forall|i: int| 0 <= i < self@.len() ==> f.requires((&self@[i],)),
        ensures
            match r {
                Some(v) => exists|i: int|
                    0 <= i < self@.len() && f.ensures((&self@[i],), ControlFlow::Break(v)) && forall|
                        j: int,
                    | 0 <= j < i ==> f.ensures((&self@[j],), ControlFlow::Continue(())),
                None => forall|j: int|
                    0 <= j < self@.len() ==> f.ensures((&self@[j],), ControlFlow::Continue(())),
            },
    {
        let mut i: usize = 0;
        while i < self.inner.len()
            invariant
                i <= self@.len(),
                forall|k: int| 0 <= k < self@.len() ==> f.requires((&self@[k],)),
                forall|j: int| 0 <= j < i ==> f.ensures((&self@[j],), ControlFlow::Continue(())),
            decreases self@.len() - i,
        {
            let c = f(&self.inner[i]);
            let ghost seen = c;
            match c {
                ControlFlow::Break(v) => {
                    return Some(v);
                },
                ControlFlow::Continue(u) => {
                    assert(seen == ControlFlow::<T, ()>::Continue(u));
                    assert(u == ());
                },
            }
            i = i + 1;
        }
        None
    }

    /// Scans the events oldest first and stops at the first that matches.
    pub fn first_match(&self, e: &OutputExpectation) -> (r: Option<usize>)
        ensures
            match r {
                Some(i) => first_match_from(self@, *e, 0) == Some(i as int),
                None => first_match_from(self@, *e, 0) is None,
            },
    {
        let mut i: usize = 0;
        while i < self.inner.len()
            invariant
                i <= self@.len(),
                first_match_from(self@, *e, i as int) == first_match_from(self@, *e, 0),
            decreases self@.len() - i,
        {
            if e.matches(&self.inner[i]) {
                return Some(i);
            }
            i = i + 1;
        }
        None
    }
}

} // verus!
