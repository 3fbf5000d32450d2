use rdf_terms::blank_node::{BlankNode, BlankNodeGenerator};
use rdf_terms::literal::Literal;
use rdf_terms::named_node::NamedNode;
use rdf_terms::order::compare_str;
use rdf_terms::term::{eq_compare, hash, CompareOp, Term};
use std::cmp::Ordering;

const XSD_STRING: &str = "http://www.w3.org/2001/XMLSchema#string";
const RDF_LANG_STRING: &str = "http://www.w3.org/1999/02/22-rdf-syntax-ns#langString";

fn node(s: &str) -> NamedNode {
    NamedNode::construct(s).expect("valid IRI")
}

#[test]
fn named_node_keeps_iri_unchanged() {
    for s in ["http://example.com/foo", "HTTP://Example.COM/a/../b?q=1#frag", "urn:isbn:0451450523"] {
        let n = node(s);
        assert_eq!(n.as_string(), s);
        assert_eq!(n.to_display_string(), s);
    }
}

#[test]
fn named_node_rejects_invalid_iris() {
    for s in ["", "http://example.com/a b", "http://example.com/<", "relative/path", "#frag"] {
        let r = NamedNode::construct(s);
        assert!(r.is_err(), "{s:?} was accepted");
        assert!(!r.unwrap_err().message.is_empty());
    }
}

#[test]
fn named_node_equality_follows_strings() {
    let a = node("http://example.com/a");
    let a2 = node("http://example.com/a");
    let b = node("http://example.com/b");
    assert!(eq_compare(&a, &a2, CompareOp::Eq));
    assert!(!eq_compare(&a, &b, CompareOp::Eq));
    assert!(eq_compare(&a, &b, CompareOp::Ne));
    assert!(eq_compare(&a, &b, CompareOp::Lt));
    assert!(eq_compare(&a, &b, CompareOp::Le));
    assert!(eq_compare(&b, &a, CompareOp::Gt));
    assert!(eq_compare(&b, &a, CompareOp::Ge));
    assert!(eq_compare(&a, &a2, CompareOp::Le));
    assert!(eq_compare(&a, &a2, CompareOp::Ge));
    assert_eq!(hash(&a), hash(&a2));
}

#[test]
fn blank_nodes_are_fresh() {
    let mut g = BlankNodeGenerator::new();
    let nodes: Vec<BlankNode> = (0..100).map(|_| BlankNode::construct_fresh(&mut g)).collect();
    for i in 0..nodes.len() {
        for j in 0..nodes.len() {
            if i != j {
                assert!(!eq_compare(&nodes[i], &nodes[j], CompareOp::Eq));
                assert_ne!(nodes[i].to_display_string(), nodes[j].to_display_string());
            }
        }
    }
    assert!(!g.is_exhausted());
}

#[test]
fn blank_node_display_is_decimal_label() {
    let mut g = BlankNodeGenerator::new();
    let mut last = BlankNode::construct_fresh(&mut g);
    assert_eq!(last.to_display_string(), "_:0");
    for _ in 0..12 {
        last = BlankNode::construct_fresh(&mut g);
    }
    assert_eq!(last.id(), 12);
    assert_eq!(last.to_display_string(), "_:12");
}

#[test]
fn simple_literal_has_string_datatype() {
    let l = Literal::construct("hello".to_string(), None, None);
    assert_eq!(l.datatype().as_string(), XSD_STRING);
    assert_eq!(l.language(), None);
    assert_eq!(l.value(), "hello");
    assert_eq!(l.to_display_string(), "\"hello\"");
}

#[test]
fn language_literal_has_lang_string_datatype() {
    let l = Literal::construct("bonjour".to_string(), Some("fr".to_string()), None);
    assert_eq!(l.datatype().as_string(), RDF_LANG_STRING);
    assert_eq!(l.language(), Some("fr".to_string()));
    assert_eq!(l.to_display_string(), "\"bonjour\"@fr");
}

#[test]
fn language_wins_over_datatype() {
    let l = Literal::construct(
        "bonjour".to_string(),
        Some("fr".to_string()),
        Some(node("http://example.org/custom")),
    );
    assert_eq!(l.datatype().as_string(), RDF_LANG_STRING);
    assert_eq!(l.language(), Some("fr".to_string()));
}

#[test]
fn typed_literal_keeps_datatype() {
    let dt = "http://www.w3.org/2001/XMLSchema#integer";
    let l = Literal::construct("42".to_string(), None, Some(node(dt)));
    assert_eq!(l.datatype().as_string(), dt);
    assert_eq!(l.language(), None);
    assert_eq!(l.to_display_string(), "\"42\"^^<http://www.w3.org/2001/XMLSchema#integer>");
}

#[test]
fn explicit_string_datatype_equals_simple_literal() {
    let a = Literal::construct("x".to_string(), None, Some(node(XSD_STRING)));
    let b = Literal::construct("x".to_string(), None, None);
    assert_eq!(a.compare(&b), Ordering::Equal);
    assert_eq!(a.to_display_string(), "\"x\"");
    assert_eq!(hash(&a), hash(&b));
}

#[test]
fn literal_display_escapes_value() {
    let l = Literal::construct("a\"b\\c\nd\re".to_string(), None, None);
    assert_eq!(l.to_display_string(), "\"a\\\"b\\\\c\\nd\\re\"");
    let u = Literal::construct("été".to_string(), Some("fr".to_string()), None);
    assert_eq!(u.to_display_string(), "\"été\"@fr");
}

#[test]
fn literal_order_is_total_and_deterministic() {
    let lits = vec![
        Literal::construct("b".to_string(), None, None),
        Literal::construct("a".to_string(), Some("en".to_string()), None),
        Literal::construct("a".to_string(), None, None),
        Literal::construct("a".to_string(), Some("de".to_string()), None),
        Literal::construct("a".to_string(), None, Some(node("http://example.org/t"))),
        Literal::construct("".to_string(), None, None),
    ];
    for x in &lits {
        for y in &lits {
            let n = [
                eq_compare(x, y, CompareOp::Lt),
                eq_compare(x, y, CompareOp::Eq),
                eq_compare(x, y, CompareOp::Gt),
            ]
            .iter()
            .filter(|b| **b)
            .count();
            assert_eq!(n, 1);
            assert_eq!(x.compare(y), y.compare(x).reverse());
        }
    }
    let sorted = |mut v: Vec<usize>| {
        v.sort_by(|i, j| lits[*i].compare(&lits[*j]));
        v
    };
    let first = sorted((0..lits.len()).collect());
    let second = sorted((0..lits.len()).rev().collect());
    assert_eq!(first, second);
    assert_eq!(first, vec![5, 4, 2, 3, 1, 0]);
}

#[test]
fn compare_str_is_byte_order() {
    assert_eq!(compare_str("abc", "abd"), Ordering::Less);
    assert_eq!(compare_str("abc", "ab"), Ordering::Greater);
    assert_eq!(compare_str("", ""), Ordering::Equal);
    assert_eq!(compare_str("z", "é"), Ordering::Less);
}

#[test]
fn hash_differs_for_distinct_terms() {
    let a = node("http://example.com/a");
    let b = node("http://example.com/b");
    assert_ne!(hash(&a), hash(&b));
}

#[test]
fn equality_operators_follow_models() {
    assert!(node("http://example.com/a") == node("http://example.com/a"));
    assert!(node("http://example.com/a") != node("http://example.com/A"));
    let mut g = BlankNodeGenerator::new();
    let b1 = BlankNode::construct_fresh(&mut g);
    let b2 = BlankNode::construct_fresh(&mut g);
    assert!(b1 == b1);
    assert!(b1 != b2);
    let plain = Literal::construct("v".to_string(), None, None);
    let typed = Literal::construct("v".to_string(), None, Some(node(XSD_STRING)));
    let tagged = Literal::construct("v".to_string(), Some("en".to_string()), None);
    let lang_typed = Literal::construct("v".to_string(), None, Some(node(RDF_LANG_STRING)));
    assert!(plain == typed);
    assert!(plain != tagged);
    assert!(tagged != lang_typed);
    assert_ne!(tagged.to_display_string(), lang_typed.to_display_string());
}

#[test]
fn display_strings_identify_literals() {
    let lits = vec![
        Literal::construct("a".to_string(), None, None),
        Literal::construct("a\"".to_string(), None, None),
        Literal::construct("a\\".to_string(), None, None),
        Literal::construct("a\"@en".to_string(), None, None),
        Literal::construct("a".to_string(), Some("en".to_string()), None),
        Literal::construct("a".to_string(), None, Some(node("http://example.org/t"))),
        Literal::construct("a\"^^<http://example.org/t>".to_string(), None, None),
    ];
    for x in &lits {
        for y in &lits {
            assert_eq!(x.to_display_string() == y.to_display_string(), x == y);
        }
    }
}
