//! The canonical text of a term, and the law that the dialect's grammar reads it back as the
//! same tree.
use vstd::prelude::*;
use crate::dialect::{
    apply_element, at, bracketed_spec, connecter_len, empty_mid, fold_elements, folded,
    folded_all, in_class, is_connecter1, is_connecter2, is_copula, is_punctuation, items_spec,
    narsese_spec, parse_model, run_len, skip_ws, stamp_spec, term_spec, CharClass,
    DialectError, ElementModel, NodeModel,
};
use crate::term::{SentenceModel, TermModel};

verus! {

/// The canonical text of a term: `prefix name`, `(connecter, t1, t2)`, `{t1, t2}`,
/// `<subject copula predicate>`.
pub open spec fn term_text(t: TermModel) -> Seq<char>
    decreases t, 1nat,
{
    match t {
        TermModel::Atom { prefix, name } => prefix + name,
        TermModel::Compound { connecter, terms } => seq!['('] + connecter + items_text(terms, seq![')']),
        TermModel::SetTerm { left_bracket, terms, right_bracket } => if terms.len() == 0 {
            left_bracket + right_bracket
        } else {
            left_bracket + term_text(terms[0]) + items_text(
                terms.subrange(1, terms.len() as int),
                right_bracket,
            )
        },
        TermModel::Statement { copula, subject, predicate } => seq!['<'] + term_text(*subject)
            + seq![' '] + copula + seq![' '] + term_text(*predicate) + seq!['>'],
    }
}

/// `, t` for each term, then the closing bracket.
pub open spec fn items_text(ts: Seq<TermModel>, closer: Seq<char>) -> Seq<char>
    decreases ts, 0nat,
{
    if ts.len() == 0 {
        closer
    } else {
        seq![',', ' '] + term_text(ts[0]) + items_text(ts.subrange(1, ts.len() as int), closer)
    }
}

pub open spec fn all_in_class(s: Seq<char>, k: CharClass) -> bool {
    forall|x: int| 0 <= x < s.len() ==> #[trigger] in_class(s[x], k)
}

pub open spec fn is_connecter(c: Seq<char>) -> bool {
    (c.len() == 2 && is_connecter2(c[0], c[1])) || (c.len() == 1 && is_connecter1(c[0]))
}

/// A term that the canonical text can carry: atoms made of prefix characters then name
/// characters, not empty, with a name that does not begin with `_`; known connecters and
/// copulas; sets in braces or brackets, not empty.
pub open spec fn wf_term(t: TermModel) -> bool
    decreases t, 1nat,
{
    match t {
        TermModel::Atom { prefix, name } => {
            &&& all_in_class(prefix, CharClass::Prefix)
            &&& all_in_class(name, CharClass::Name)
            &&& prefix.len() + name.len() > 0
            &&& name.len() > 0 ==> name[0] != '_'
        },
        TermModel::Compound { connecter, terms } => is_connecter(connecter) && wf_terms(terms),
        TermModel::SetTerm { left_bracket, terms, right_bracket } => {
            &&& (left_bracket == seq!['{'] && right_bracket == seq!['}']) || (left_bracket
                == seq!['['] && right_bracket == seq![']'])
            &&& terms.len() > 0
            &&& wf_terms(terms)
        },
        TermModel::Statement { copula, subject, predicate } => {
            &&& copula.len() == 3
            &&& is_copula(copula[0], copula[1], copula[2])
            &&& wf_term(*subject)
            &&& wf_term(*predicate)
        },
    }
}

/// Every term of the list is well-formed.
pub open spec fn wf_terms(ts: Seq<TermModel>) -> bool
    decreases ts, 0nat,
{
    ts.len() == 0 || (wf_term(ts[0]) && wf_terms(ts.subrange(1, ts.len() as int)))
}

/// Characters that may follow a term in canonical text.
pub open spec fn is_delimiter(c: char) -> bool {
    c == ',' || c == ')' || c == '}' || c == ']' || c == ' ' || c == '>' || c == '.'
}

/// `s` holds `w` at position `i`.
pub open spec fn holds_at(s: Seq<char>, i: int, w: Seq<char>) -> bool {
    0 <= i && i + w.len() <= s.len() && s.subrange(i, i + w.len()) == w
}

/// `s` ends at `e` or holds a delimiter there.
pub open spec fn delimited_at(s: Seq<char>, e: int) -> bool {
    e == s.len() || (0 <= e < s.len() && is_delimiter(s[e]))
}

proof fn lemma_run_exact(s: Seq<char>, i: int, m: int, k: CharClass)
    requires
        0 <= i,
        0 <= m,
        i + m <= s.len(),
        forall|x: int| i <= x < i + m ==> #[trigger] in_class(s[x], k),
        i + m == s.len() || !in_class(s[i + m], k),
    ensures
        run_len(s, i, k) == m,
    decreases m,
{
    if m > 0 {
        lemma_run_exact(s, i + 1, m - 1, k);
    }
}

proof fn lemma_no_space(s: Seq<char>, i: int)
    requires
        0 <= i < s.len(),
        !in_class(s[i], CharClass::Space),
    ensures
        skip_ws(s, i) == i,
{
}

proof fn lemma_one_space(s: Seq<char>, i: int)
    requires
        0 <= i,
        i + 1 < s.len(),
        s[i] == ' ',
        !in_class(s[i + 1], CharClass::Space),
    ensures
        skip_ws(s, i) == i + 1,
{
    lemma_run_exact(s, i, 1, CharClass::Space);
}

/// The canonical text of a well-formed term is not empty, does not begin with a space or a
/// closing character, and begins with an opening bracket only when the term is no atom.
proof fn lemma_text_start(t: TermModel)
    requires
        wf_term(t),
    ensures
        term_text(t).len() > 0,
        !in_class(term_text(t)[0], CharClass::Space),
        term_text(t)[0] != '>' && term_text(t)[0] != ',' && term_text(t)[0] != ')',
        t is Atom ==> term_text(t)[0] != '<' && term_text(t)[0] != '(' && term_text(t)[0] != '{'
            && term_text(t)[0] != '[',
{
    match t {
        TermModel::Atom { prefix, name } => {
            if prefix.len() > 0 {
                assert(term_text(t)[0] == prefix[0]);
                assert(in_class(prefix[0], CharClass::Prefix));
            } else {
                assert(term_text(t)[0] == name[0]);
                assert(in_class(name[0], CharClass::Name));
            }
        },
        TermModel::SetTerm { left_bracket, terms, right_bracket } => {
            assert(term_text(t)[0] == left_bracket[0]);
        },
        _ => {},
    }
}


proof fn lemma_holds_split(s: Seq<char>, i: int, a: Seq<char>, b: Seq<char>)
    requires
        holds_at(s, i, a + b),
    ensures
        holds_at(s, i, a),
        holds_at(s, i + a.len(), b),
{
    let w = a + b;
    assert forall|x: int| 0 <= x < a.len() implies #[trigger] s.subrange(i, i + a.len())[x]
        == a[x] by {
        assert(s.subrange(i, i + w.len())[x] == w[x]);
    }
    assert(s.subrange(i, i + a.len()) =~= a);
    assert forall|x: int| 0 <= x < b.len() implies #[trigger] s.subrange(
        i + a.len(),
        i + a.len() + b.len(),
    )[x] == b[x] by {
        assert(s.subrange(i, i + w.len())[a.len() + x] == w[a.len() + x]);
    }
    assert(s.subrange(i + a.len(), i + a.len() + b.len()) =~= b);
}

proof fn lemma_holds_char(s: Seq<char>, i: int, c: char)
    requires
        holds_at(s, i, seq![c]),
    ensures
        0 <= i < s.len(),
        s[i] == c,
{
    assert(s.subrange(i, i + 1)[0] == s[i]);
}

proof fn lemma_holds_first(s: Seq<char>, i: int, w: Seq<char>)
    requires
        holds_at(s, i, w),
        w.len() > 0,
    ensures
        s[i] == w[0],
{
    assert(s.subrange(i, i + w.len())[0] == s[i]);
}

proof fn lemma_items_text_start(ts: Seq<TermModel>, closer: Seq<char>)
    requires
        closer.len() == 1,
    ensures
        items_text(ts, closer).len() > 0,
        items_text(ts, closer)[0] == ',' || items_text(ts, closer)[0] == closer[0],
{
}

proof fn lemma_term_round_trip(t: TermModel, s: Seq<char>, i: int)
    requires
        wf_term(t),
        holds_at(s, i, term_text(t)),
        delimited_at(s, i + term_text(t).len()),
    ensures
        term_spec(s, i) is Some,
        folded(term_spec(s, i)->Some_0.0) == t,
        term_spec(s, i)->Some_0.1 == term_text(t).len(),
    decreases t, 2nat,
{
    match t {
        TermModel::Atom { .. } => lemma_atom_round_trip(t, s, i),
        TermModel::Compound { .. } => lemma_compound_round_trip(t, s, i),
        TermModel::SetTerm { .. } => lemma_set_round_trip(t, s, i),
        TermModel::Statement { .. } => lemma_statement_round_trip(t, s, i),
    }
}

proof fn lemma_atom_round_trip(t: TermModel, s: Seq<char>, i: int)
    requires
        t is Atom,
        wf_term(t),
        holds_at(s, i, term_text(t)),
        delimited_at(s, i + term_text(t).len()),
    ensures
        term_spec(s, i) is Some,
        folded(term_spec(s, i)->Some_0.0) == t,
        term_spec(s, i)->Some_0.1 == term_text(t).len(),
    decreases t, 1nat,
{
    lemma_text_start(t);
    lemma_holds_first(s, i, term_text(t));
    match t {
        TermModel::Atom { prefix, name } => {
            lemma_holds_split(s, i, prefix, name);
            let p = prefix.len() as int;
            let q = name.len() as int;
            assert forall|x: int| i <= x < i + p implies #[trigger] in_class(s[x], CharClass::Prefix) by {
                assert(s.subrange(i, i + p)[x - i] == prefix[x - i]);
            }
            assert forall|x: int| i + p <= x < i + p + q implies #[trigger] in_class(s[x], CharClass::Name) by {
                assert(s.subrange(i + p, i + p + q)[x - i - p] == name[x - i - p]);
            }
            if q > 0 {
                assert(s.subrange(i + p, i + p + q)[0] == name[0]);
                assert(in_class(name[0], CharClass::Name));
                assert(!in_class(s[i + p], CharClass::Prefix));
            } else {
                assert(i + p == s.len() || !in_class(s[i + p], CharClass::Prefix));
            }
            assert(i + p + q == s.len() || !in_class(s[i + p + q], CharClass::Name));
            lemma_run_exact(s, i, p, CharClass::Prefix);
            lemma_run_exact(s, i + p, q, CharClass::Name);
        },
        _ => {},
    }
}

proof fn lemma_compound_round_trip(t: TermModel, s: Seq<char>, i: int)
    requires
        t is Compound,
        wf_term(t),
        holds_at(s, i, term_text(t)),
        delimited_at(s, i + term_text(t).len()),
    ensures
        term_spec(s, i) is Some,
        folded(term_spec(s, i)->Some_0.0) == t,
        term_spec(s, i)->Some_0.1 == term_text(t).len(),
    decreases t, 1nat,
{
    lemma_text_start(t);
    lemma_holds_first(s, i, term_text(t));
    match t {
        TermModel::Compound { connecter, terms } => {
            let closer = seq![')'];
            lemma_holds_split(s, i, seq!['('] + connecter, items_text(terms, closer));
            lemma_holds_split(s, i, seq!['('], connecter);
            let k = i + 1;
            let lc = connecter.len() as int;
            lemma_holds_first(s, k, connecter);
            lemma_no_space(s, k);
            lemma_items_text_start(terms, closer);
            lemma_holds_first(s, k + lc, items_text(terms, closer));
            if lc == 1 {
                assert(!is_connecter2(s[k], s[k + 1]));
            } else {
                assert(s.subrange(k, k + 2)[1] == connecter[1]);
            }
            assert(connecter_len(s, k) == lc);
            assert(s.subrange(k, k + lc) == connecter);
            lemma_no_space(s, k + lc);
            lemma_items_round_trip(terms, ')', s, k + lc);
            let (ns, lt) = items_spec(s, k + lc, ')')->Some_0;
            let node = NodeModel::Compound { connecter, terms: ns };
            assert(term_spec(s, i) == Some((node, (k + lc + lt - i) as nat)));
            assert(folded(node)->Compound_terms =~= terms) by {
                assert forall|x: int| 0 <= x < ns.len() implies folded(ns[x]) == terms[x] by {
                    assert(folded_all(ns)[x] == folded(ns[x]));
                }
            };
        },
        _ => {},
    }
}

proof fn lemma_set_round_trip(t: TermModel, s: Seq<char>, i: int)
    requires
        t is SetTerm,
        wf_term(t),
        holds_at(s, i, term_text(t)),
        delimited_at(s, i + term_text(t).len()),
    ensures
        term_spec(s, i) is Some,
        folded(term_spec(s, i)->Some_0.0) == t,
        term_spec(s, i)->Some_0.1 == term_text(t).len(),
    decreases t, 1nat,
{
    lemma_text_start(t);
    lemma_holds_first(s, i, term_text(t));
    match t {
        TermModel::SetTerm { left_bracket, terms, right_bracket } => {
            let rest = terms.subrange(1, terms.len() as int);
            let c = right_bracket[0];
            assert(wf_terms(terms));
            assert(wf_term(terms[0]) && wf_terms(rest));

            lemma_holds_split(s, i, left_bracket + term_text(terms[0]), items_text(rest, right_bracket));
            lemma_holds_split(s, i, left_bracket, term_text(terms[0]));
            lemma_holds_first(s, i, left_bracket);
            let k = i + 1;
            let l0 = term_text(terms[0]).len() as int;
            lemma_text_start(terms[0]);
            lemma_holds_first(s, k, term_text(terms[0]));
            lemma_no_space(s, k);
            lemma_items_text_start(rest, right_bracket);
            lemma_holds_first(s, k + l0, items_text(rest, right_bracket));
            lemma_term_round_trip(terms[0], s, k);
            lemma_no_space(s, k + l0);
            lemma_items_round_trip(rest, c, s, k + l0);
            let (n0, l) = term_spec(s, k)->Some_0;
            let (ns, lt) = items_spec(s, k + l0, c)->Some_0;
            let all = seq![n0] + ns;
            let node = if left_bracket == seq!['{'] {
                NodeModel::ExtSet { terms: all }
            } else {
                NodeModel::IntSet { terms: all }
            };
            assert(term_spec(s, i) == Some((node, (k + l0 + lt - i) as nat)));
            assert(folded(node)->SetTerm_terms =~= terms) by {
                assert forall|x: int| 0 <= x < all.len() implies folded(all[x]) == terms[x] by {
                    if x > 0 {
                        assert(all[x] == ns[x - 1]);
                        assert(folded_all(ns)[x - 1] == folded(ns[x - 1]));
                        assert(rest[x - 1] == terms[x]);
                    }
                }
            };
        },
        _ => {},
    }
}

proof fn lemma_statement_round_trip(t: TermModel, s: Seq<char>, i: int)
    requires
        t is Statement,
        wf_term(t),
        holds_at(s, i, term_text(t)),
        delimited_at(s, i + term_text(t).len()),
    ensures
        term_spec(s, i) is Some,
        folded(term_spec(s, i)->Some_0.0) == t,
        term_spec(s, i)->Some_0.1 == term_text(t).len(),
    decreases t, 1nat,
{
    lemma_text_start(t);
    lemma_holds_first(s, i, term_text(t));
    match t {
        TermModel::Statement { copula, subject, predicate } => {
            let ts = term_text(*subject);
            let tp = term_text(*predicate);
            let a = seq!['<'] + ts;
            let b = a + seq![' '];
            let c = b + copula;
            let d = c + seq![' '];
            let e = d + tp;
            lemma_holds_split(s, i, e, seq!['>']);
            lemma_holds_split(s, i, d, tp);
            lemma_holds_split(s, i, c, seq![' ']);
            lemma_holds_split(s, i, b, copula);
            lemma_holds_split(s, i, a, seq![' ']);
            lemma_holds_split(s, i, seq!['<'], ts);
            let k = i + 1;
            let ls = ts.len() as int;
            let lp = tp.len() as int;
            lemma_text_start(*subject);
            lemma_text_start(*predicate);
            lemma_holds_first(s, k, ts);
            lemma_no_space(s, k);
            lemma_holds_char(s, k + ls, ' ');
            lemma_term_round_trip(*subject, s, k);
            let cp = k + ls + 1;
            lemma_holds_first(s, cp, copula);
            lemma_one_space(s, k + ls);
            assert(s.subrange(cp, cp + 3)[1] == copula[1]);
            assert(s.subrange(cp, cp + 3)[2] == copula[2]);
            lemma_holds_char(s, cp + 3, ' ');
            let pp = cp + 4;
            lemma_holds_first(s, pp, tp);
            lemma_one_space(s, cp + 3);
            lemma_holds_char(s, pp + lp, '>');
            lemma_term_round_trip(*predicate, s, pp);
            lemma_no_space(s, pp + lp);
        },        _ => {},
    }
}

proof fn lemma_items_round_trip(ts: Seq<TermModel>, closer: char, s: Seq<char>, j: int)
    requires
        wf_terms(ts),
        closer == ')' || closer == '}' || closer == ']',
        holds_at(s, j, items_text(ts, seq![closer])),
    ensures
        items_spec(s, j, closer) is Some,
        folded_all(items_spec(s, j, closer)->Some_0.0) == ts,
        items_spec(s, j, closer)->Some_0.1 == items_text(ts, seq![closer]).len(),
    decreases ts, 0nat,
{
    let cl = seq![closer];
    if ts.len() == 0 {
        lemma_holds_char(s, j, closer);
        assert(folded_all(Seq::<NodeModel>::empty()) =~= ts);
    } else {
        let rest = ts.subrange(1, ts.len() as int);
        let t0 = term_text(ts[0]);
        lemma_holds_split(s, j, seq![',', ' '] + t0, items_text(rest, cl));
        lemma_holds_split(s, j, seq![',', ' '], t0);
        assert(s.subrange(j, j + 2)[0] == s[j]);
        assert(s.subrange(j, j + 2)[1] == s[j + 1]);
        lemma_text_start(ts[0]);
        lemma_holds_first(s, j + 2, t0);
        lemma_one_space(s, j + 1);
        let l0 = t0.len() as int;
        lemma_items_text_start(rest, cl);
        lemma_holds_first(s, j + 2 + l0, items_text(rest, cl));
        lemma_term_round_trip(ts[0], s, j + 2);
        lemma_no_space(s, j + 2 + l0);
        lemma_items_round_trip(rest, closer, s, j + 2 + l0);
        let (n0, l) = term_spec(s, j + 2)->Some_0;
        let (ns, lt) = items_spec(s, j + 2 + l0, closer)->Some_0;
        assert(folded_all(seq![n0] + ns) =~= ts) by {
            assert forall|x: int| 0 <= x < ts.len() implies folded_all(seq![n0] + ns)[x] == ts[x] by {
                if x > 0 {
                    assert((seq![n0] + ns)[x] == ns[x - 1]);
                    assert(folded_all(ns)[x - 1] == folded(ns[x - 1]));
                    assert(rest[x - 1] == ts[x]);
                }
            }
        };
    }
}

/// Reading the canonical text of a well-formed term with the dialect's grammar gives a parse
/// tree that folds back to the same term, and reads the whole text.
pub proof fn law_canonical_round_trip(t: TermModel)
    requires
        wf_term(t),
    ensures
        term_spec(term_text(t), 0) is Some,
        folded(term_spec(term_text(t), 0)->Some_0.0) == t,
        term_spec(term_text(t), 0)->Some_0.1 == term_text(t).len(),
{
    let s = term_text(t);
    assert(s.subrange(0, s.len() as int) =~= s);
    lemma_term_round_trip(t, s, 0);
}


proof fn lemma_run_stops(s: Seq<char>, i: int, k: CharClass)
    requires
        0 <= i <= s.len(),
    ensures
        i + run_len(s, i, k) <= s.len(),
        i + run_len(s, i, k) == s.len() || !in_class(s[i + run_len(s, i, k)], k),
    decreases s.len() - i,
{
    if i < s.len() && in_class(s[i], k) {
        lemma_run_stops(s, i + 1, k);
    }
}

/// The text begins with two `$`, which the line grammar reads as an empty budget.
pub open spec fn starts_with_empty_budget(w: Seq<char>) -> bool {
    w.len() >= 2 && w[0] == '$' && w[1] == '$'
}

/// The canonical text of a well-formed term, followed by `.`, holds no budget.
proof fn lemma_no_budget(t: TermModel, s: Seq<char>)
    requires
        wf_term(t),
        s == term_text(t) + seq!['.'],
        !starts_with_empty_budget(term_text(t)),
    ensures
        bracketed_spec(s, 0, '$', '$') is None,
{
    let w = term_text(t);
    lemma_text_start(t);
    if s[0] == '$' {
        match t {
            TermModel::Atom { prefix, name } => {
                if prefix.len() == 0 {
                    assert(w[0] == name[0]);
                    assert(in_class(name[0], CharClass::Name));
                }
                assert(w[0] == prefix[0]);
                if prefix.len() >= 2 {
                    assert(s[1] == prefix[1]);
                    assert(in_class(prefix[1], CharClass::Prefix));
                    assert(run_len(s, 1, CharClass::Number) == 0);
                } else {
                    let n = run_len(s, 1, CharClass::Number);
                    lemma_run_stops(s, 1, CharClass::Number);
                    let e = 1 + n as int;
                    if e < s.len() {
                        assert(e != w.len());
                        assert(e < w.len());
                        assert(s[e] == name[e - 1]);
                        assert(in_class(name[e - 1], CharClass::Name));
                    }
                    if 1 < w.len() {
                        assert(s[1] == name[0]);
                        assert(in_class(name[0], CharClass::Name));
                    }
                }
            },
            _ => {},
        }
    }
}

/// The sentence that the canonical text of a term, written as a judgement, stands for.
pub open spec fn judgement_of(t: TermModel) -> SentenceModel {
    SentenceModel {
        budget: None,
        term: t,
        punctuation: seq!['.'],
        stamp: Seq::empty(),
        truth: Seq::empty(),
    }
}

/// Parsing the canonical text of a well-formed term, written as a judgement with `.`, gives
/// back that term. The one exception is a text that begins with `$$`, which the grammar reads
/// as an empty budget.
pub proof fn law_canonical_judgement(t: TermModel)
    requires
        wf_term(t),
        !starts_with_empty_budget(term_text(t)),
    ensures
        parse_model(term_text(t) + seq!['.']) == Ok::<SentenceModel, DialectError>(
            judgement_of(t),
        ),
{
    let w = term_text(t);
    let s = w + seq!['.'];
    let len = w.len() as int;
    lemma_text_start(t);
    assert(s.subrange(0, len) =~= w);
    assert(s[len] == '.');
    lemma_term_round_trip(t, s, 0);
    assert(s[0] == w[0]);
    lemma_no_space(s, 0);
    lemma_no_budget(t, s);
    let (n, l) = term_spec(s, 0)->Some_0;
    assert(skip_ws(s, len) == len);
    assert(is_punctuation(s[len]));
    assert(skip_ws(s, len + 1) == len + 1);
    assert(stamp_spec(s, len + 1) is None);
    assert(bracketed_spec(s, len + 1, '%', '%') is None);
    assert(s.subrange(len, len + 1) =~= seq!['.']);
    let els = seq![ElementModel::Term(n), ElementModel::Punctuation(seq!['.'])];
    assert(narsese_spec(s) == Some(els)) by {
        assert(Seq::<ElementModel>::empty() + els + Seq::<ElementModel>::empty()
            + Seq::<ElementModel>::empty() =~= els);
    };
    assert(els.drop_last() =~= seq![ElementModel::Term(n)]);
    assert(seq![ElementModel::Term(n)].drop_last() =~= Seq::<ElementModel>::empty());
    assert(fold_elements(Seq::<ElementModel>::empty()) == empty_mid());
    assert(fold_elements(seq![ElementModel::Term(n)]) == apply_element(
        empty_mid(),
        ElementModel::Term(n),
    ));
    assert(els.last() == ElementModel::Punctuation(seq!['.']));
    assert(fold_elements(els) == apply_element(
        apply_element(empty_mid(), ElementModel::Term(n)),
        ElementModel::Punctuation(seq!['.']),
    ));
}

} // verus!
