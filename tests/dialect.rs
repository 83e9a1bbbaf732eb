use babel_nar::dialect::{fold_term, parse, DialectError, DialectParser, Element};
use babel_nar::term::Term;

fn atom(prefix: &str, name: &str) -> Term {
    Term::Atom { prefix: prefix.to_string(), name: name.to_string() }
}

fn ext_set(terms: Vec<Term>) -> Term {
    Term::SetTerm { left_bracket: "{".to_string(), terms, right_bracket: "}".to_string() }
}

fn term_of(text: &str) -> Term {
    let els = DialectParser::parse_elements(text).expect("grammar");
    match &els[0] {
        Element::Term(n) => fold_term(n),
        _ => panic!("the first element is not a term"),
    }
}

#[test]
fn test_dialect_parser() {
    let narseses = "
        <(&|,(^want,{SELF},$1,FALSE),(^anticipate,{SELF},$1)) =|> <(*,{SELF},$1) --> afraid_of>>.
        <A --> B>.
        {A, B}
        <{tim} --> (/,livingIn,_,{graz})>. %0%
        <<(*,$1,sunglasses) --> own> ==> <$1 --> [aggressive]>>.
        <(*,{tom},sunglasses) --> own>.
        <<$1 --> [aggressive]> ==> <$1 --> murder>>.
        <<$1 --> (/,livingIn,_,{graz})> ==> <$1 --> murder>>.
        <{?who} --> murder>?
        <{tim} --> (/,livingIn,_,{graz})>.
        <{tim} --> (/,livingIn,_,{graz})>. %0%
        <<(*,$1,sunglasses) --> own> ==> <$1 --> [aggressive]>>.
        <(*,{tom},(&,[black],glasses)) --> own>.
        <<$1 --> [aggressive]> ==> <$1 --> murder>>.
        <<$1 --> (/,livingIn,_,{graz})> ==> <$1 --> murder>>.
        <sunglasses --> (&,[black],glasses)>.
        <{?who} --> murder>?
        <(*,toothbrush,plastic) --> made_of>.
        <(&/,<(*,$1,plastic) --> made_of>,(^lighter,{SELF},$1)) =/> <$1 --> [heated]>>.
        <<$1 --> [heated]> =/> <$1 --> [melted]>>.
        <<$1 --> [melted]> <|> <$1 --> [pliable]>>.
        <(&/,<$1 --> [pliable]>,(^reshape,{SELF},$1)) =/> <$1 --> [hardened]>>.
        <<$1 --> [hardened]> =|> <$1 --> [unscrewing]>>.
        <toothbrush --> object>.
        (&&,<#1 --> object>,<#1 --> [unscrewing]>)!
        <{SELF} --> [hurt]>! %0%
        <{SELF} --> [hurt]>. :|: %0%
        <(&/,<(*,{SELF},wolf) --> close_to>,+1000) =/> <{SELF} --> [hurt]>>.
        <(*,{SELF},wolf) --> close_to>. :|:
        <(&|,(^want,{SELF},$1,FALSE),(^anticipate,{SELF},$1)) =|> <(*,{SELF},$1) --> afraid_of>>.
        <(*,{SELF},?what) --> afraid_of>?
        <a --> A>. :|: %1.00;0.90%
        <b --> B>. :|: %1.00;0.90%
        <c --> C>. :|: %1.00;0.90%
        <a --> A>. :|: %1.00;0.90%
        <b --> B>. :|: %1.00;0.90%
        <?1 =/> <c --> C>>?
        <(*,cup,plastic) --> made_of>.
        <cup --> object>.
        <cup --> [bendable]>.
        <toothbrush --> [bendable]>.
        <toothbrush --> object>.
        <(&/,<(*,$1,plastic) --> made_of>,(^lighter,{SELF},$1)) =/> <$1 --> [heated]>>.
        <<$1 --> [heated]> =/> <$1 --> [melted]>>.
        <<$1 --> [melted]> <|> <$1 --> [pliable]>>.
        <(&/,<$1 --> [pliable]>,(^reshape,{SELF},$1)) =/> <$1 --> [hardened]>>.
        <<$1 --> [hardened]> =|> <$1 --> [unscrewing]>>.
        (&&,<#1 --> object>,<#1 --> [unscrewing]>)!
        ";
    let narseses = narseses.split('\n').map(str::trim).filter(|l| !l.is_empty());
    for narsese in narseses {
        let parsed = parse(narsese);
        if narsese == "{A, B}" {
            // A bare term has no punctuation: it is not a sentence.
            assert_eq!(parsed, Err(DialectError::IncompleteSentence));
        } else {
            assert!(parsed.is_ok(), "failed to parse {narsese:?}");
        }
    }
}

#[test]
fn operation_shorthand_folds_to_inheritance() {
    let shorthand = term_of("(^left, {SELF})");
    let canonical = term_of("<(*, {SELF}) --> ^left>");
    let expected = Term::Statement {
        copula: "-->".to_string(),
        subject: Box::new(Term::Compound {
            connecter: "*".to_string(),
            terms: vec![ext_set(vec![atom("", "SELF")])],
        }),
        predicate: Box::new(atom("^", "left")),
    };
    assert_eq!(shorthand, expected);
    assert_eq!(canonical, expected);
}

#[test]
fn operation_keeps_argument_order_and_duplicates() {
    let t = term_of("(^go, b, a, b)");
    let expected = Term::Statement {
        copula: "-->".to_string(),
        subject: Box::new(Term::Compound {
            connecter: "*".to_string(),
            terms: vec![atom("", "b"), atom("", "a"), atom("", "b")],
        }),
        predicate: Box::new(atom("^", "go")),
    };
    assert_eq!(t, expected);
}

#[test]
fn canonical_statement_parses_to_its_tree() {
    let s = parse("<(*, {SELF}, $x) --> ^left>.").expect("parse");
    let expected = Term::Statement {
        copula: "-->".to_string(),
        subject: Box::new(Term::Compound {
            connecter: "*".to_string(),
            terms: vec![ext_set(vec![atom("", "SELF")]), atom("$", "x")],
        }),
        predicate: Box::new(atom("^", "left")),
    };
    assert_eq!(s.term, expected);
    assert_eq!(s.punctuation, ".");
    assert_eq!(s.budget, None);
    assert_eq!(s.stamp, "");
    assert!(s.truth.is_empty());
}

#[test]
fn task_with_budget_stamp_and_truth() {
    let s = parse("$0.5;0.8$ <a --> [b]>! :|: %1.00;0.90%").expect("parse");
    assert_eq!(s.budget, Some(vec!["0.5".to_string(), "0.8".to_string()]));
    assert_eq!(s.punctuation, "!");
    assert_eq!(s.stamp, ":|:");
    assert_eq!(s.truth, vec!["1.00".to_string(), "0.90".to_string()]);
    assert_eq!(
        s.term,
        Term::Statement {
            copula: "-->".to_string(),
            subject: Box::new(atom("", "a")),
            predicate: Box::new(Term::SetTerm {
                left_bracket: "[".to_string(),
                terms: vec![atom("", "b")],
                right_bracket: "]".to_string(),
            }),
        }
    );
}

#[test]
fn variable_is_not_taken_for_a_budget() {
    let s = parse("$1.").expect("parse");
    assert_eq!(s.term, atom("$", "1"));
    assert_eq!(s.budget, None);
}

#[test]
fn syntax_errors() {
    assert_eq!(parse(""), Err(DialectError::Syntax));
    assert_eq!(parse("<A --> B"), Err(DialectError::Syntax));
    assert_eq!(parse("<A --> B>. trailing"), Err(DialectError::Syntax));
    assert_eq!(parse("(A, B)."), Err(DialectError::Syntax));
    assert_eq!(parse("$0.5$ <A --> B>"), Err(DialectError::Syntax));
}

#[test]
fn bare_term_is_incomplete() {
    assert_eq!(parse("<A --> B>"), Err(DialectError::IncompleteSentence));
}

#[test]
fn connecters_of_two_characters_take_precedence() {
    let t = term_of("(--, a)");
    assert_eq!(t, Term::Compound { connecter: "--".to_string(), terms: vec![atom("", "a")] });
    let t = term_of("(-, a, b)");
    assert_eq!(
        t,
        Term::Compound { connecter: "-".to_string(), terms: vec![atom("", "a"), atom("", "b")] }
    );
}

#[test]
fn double_dollar_reads_as_empty_budget() {
    let s = parse("$$x.").expect("parse");
    assert_eq!(s.budget, Some(vec![]));
    assert_eq!(s.term, atom("", "x"));
}

#[test]
fn canonical_judgements_read_back() {
    let cases = vec![
        ("a.", atom("", "a")),
        ("$1.", atom("$", "1")),
        ("_.", atom("_", "")),
        (
            "(&&, <a --> b>, [c]).",
            Term::Compound {
                connecter: "&&".to_string(),
                terms: vec![
                    Term::Statement {
                        copula: "-->".to_string(),
                        subject: Box::new(atom("", "a")),
                        predicate: Box::new(atom("", "b")),
                    },
                    Term::SetTerm {
                        left_bracket: "[".to_string(),
                        terms: vec![atom("", "c")],
                        right_bracket: "]".to_string(),
                    },
                ],
            },
        ),
    ];
    for (text, term) in cases {
        let s = parse(text).expect("parse");
        assert_eq!(s.term, term, "{text}");
        assert_eq!(s.punctuation, ".");
    }
}
