//! Named nodes: terms that hold an absolute IRI.
use core::cmp::Ordering;
use vstd::prelude::*;

use crate::order::{
    compare_str, flip, lemma_str_cmp_equal, lemma_str_cmp_flip, lemma_str_cmp_transitive,
    str_cmp,
};
use crate::term::{term_hash, Term};

verus! {

/// Whether a string is an absolute IRI under the grammar of RFC 3987.
pub uninterp spec fn is_valid_iri(s: Seq<char>) -> bool;

/// Relies on `oxiri::Iri::parse`: it accepts exactly the absolute IRIs of
/// RFC 3987 and, lacking a scheme, rejects the empty string. The error is
/// handed back as its description.
#[verifier::external_body]
fn parse_iri(s: &str) -> (r: Result<(), String>)
    ensures
        r is Ok <==> is_valid_iri(s@),
        s@.len() == 0 ==> r is Err,
{
    oxiri::Iri::parse(s).map(|_| ()).map_err(|e| e.to_string())
}

/// The failure to build a named node from a string that is not an IRI.
#[derive(Debug)]
pub struct ValidationError {
    /// What is wrong with the string.
    pub message: String,
}

/// A term that names a resource by its IRI.
#[derive(Debug)]
pub struct NamedNode {
    iri: String,
}

impl View for NamedNode {
    type V = Seq<char>;

    /// The IRI, character by character.
    closed spec fn view(&self) -> Seq<char> {
        self.iri@
    }
}

impl NamedNode {
    /// Builds a named node from `value`, which must be an absolute IRI. The
    /// string is kept as it is, with no normalisation.
    pub fn construct(value: &str) -> (r: Result<NamedNode, ValidationError>)
        ensures
            r is Ok <==> is_valid_iri(value@),
            r matches Ok(n) ==> n@ == value@,
    {
        match parse_iri(value) {
            Ok(()) => Ok(NamedNode { iri: value.to_owned() }),
            Err(message) => Err(ValidationError { message }),
        }
    }

    /// A named node for one of the fixed IRIs of the data model.
    pub(crate) fn well_known(iri: &str) -> (r: NamedNode)
        ensures
            r@ == iri@,
    {
        NamedNode { iri: iri.to_owned() }
    }

    /// The IRI.
    pub fn as_string(&self) -> (r: String)
        ensures
            r@ == self@,
    {
        self.iri.as_str().to_owned()
    }

    /// A copy of this node.
    pub fn duplicate(&self) -> (r: NamedNode)
        ensures
            r@ == self@,
    {
        NamedNode { iri: self.as_string() }
    }

    /// The IRI, borrowed.
    pub fn as_str(&self) -> (r: &str)
        ensures
            r@ == self@,
    {
        self.iri.as_str()
    }
}

impl Term for NamedNode {
    /// The text form of a named node is its IRI, unadorned.
    open spec fn text(&self) -> Seq<char> {
        self@
    }

    /// Named nodes are ordered by their IRIs.
    open spec fn order(&self, other: &Self) -> Ordering {
        str_cmp(self@, other@)
    }

    fn to_display_string(&self) -> (r: String) {
        self.as_string()
    }

    fn compare(&self, other: &Self) -> (r: Ordering) {
        compare_str(self.iri.as_str(), other.iri.as_str())
    }
}

/// Named nodes built from strings `a` and `b` (which `construct` keeps as
/// they are) compare equal exactly when `a == b`, and equal nodes hash alike.
pub proof fn lemma_named_node_equality(a: Seq<char>, b: Seq<char>, m: &NamedNode, n: &NamedNode)
    requires
        m@ == a,
        n@ == b,
    ensures
        (m.order(n) == Ordering::Equal) <==> a == b,
        m.order(n) == Ordering::Equal ==> term_hash(m) == term_hash(n),
{
    lemma_str_cmp_equal(a, b);
}

/// The order on named nodes is antisymmetric and transitive.
pub proof fn lemma_named_node_order(x: &NamedNode, y: &NamedNode, z: &NamedNode, o: Ordering)
    ensures
        y.order(x) == flip(x.order(y)),
        x.order(y) == o && y.order(z) == o ==> x.order(z) == o,
{
    lemma_str_cmp_flip(x@, y@);
    if x.order(y) == o && y.order(z) == o {
        lemma_str_cmp_transitive(x@, y@, z@, o);
    }
}

/// The text form identifies a named node: it is the IRI itself.
pub proof fn lemma_named_node_text_injective(x: &NamedNode, y: &NamedNode)
    requires
        x.text() == y.text(),
    ensures
        x@ == y@,
{
}

impl PartialEq for NamedNode {
    /// Named nodes are equal when their IRIs are.
    fn eq(&self, other: &NamedNode) -> (r: bool) {
        proof {
            lemma_str_cmp_equal(self@, other@);
        }
        matches!(self.compare(other), Ordering::Equal)
    }
}

impl vstd::std_specs::cmp::PartialEqSpecImpl for NamedNode {
    open spec fn obeys_eq_spec() -> bool {
        true
    }

    open spec fn eq_spec(&self, other: &NamedNode) -> bool {
        self@ == other@
    }
}

} // verus!
