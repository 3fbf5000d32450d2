//! Blank nodes: anonymous terms, each drawn fresh from a generator.
use core::cmp::Ordering;
use vstd::prelude::*;
use vstd::string::StringExecFns;

use crate::order::flip;
use crate::term::Term;

verus! {

/// The decimal digit for `d`, which is below ten.
pub open spec fn digit(d: nat) -> char {
    seq!['0', '1', '2', '3', '4', '5', '6', '7', '8', '9'][d as int]
}

/// The decimal numeral of `n`, without leading zeros.
pub open spec fn decimal(n: nat) -> Seq<char>
    decreases n,
{
    if n < 10 {
        seq![digit(n)]
    } else {
        decimal(n / 10) + seq![digit(n % 10)]
    }
}

/// Relies on `u64`'s `Display`, through `ToString`: it writes the number in
/// decimal, with no sign and no leading zeros.
#[verifier::external_body]
fn decimal_string(n: u64) -> (r: String)
    ensures
        r@ == decimal(n as nat),
{
    n.to_string()
}

/// An anonymous node, told apart from the others by its identifier.
#[derive(Debug)]
pub struct BlankNode {
    id: u64,
}

impl View for BlankNode {
    type V = u64;

    /// The identifier.
    closed spec fn view(&self) -> u64 {
        self.id
    }
}

/// The source of fresh blank nodes. Each node it hands out has an identifier
/// that it never handed out before.
#[derive(Debug)]
pub struct BlankNodeGenerator {
    next: u64,
}

impl View for BlankNodeGenerator {
    type V = u64;

    /// The identifier of the next node; all below it are taken.
    closed spec fn view(&self) -> u64 {
        self.next
    }
}

impl BlankNodeGenerator {
    /// The identifiers already handed out.
    pub open spec fn issued(&self) -> Set<u64> {
        Set::new(|i: u64| i < self@)
    }

    /// A generator that has handed out nothing yet.
    pub fn new() -> (r: BlankNodeGenerator)
        ensures
            r.issued() == Set::<u64>::empty(),
            r@ == 0,
    {
        let r = BlankNodeGenerator { next: 0 };
        assert(r.issued() =~= Set::<u64>::empty());
        r
    }

    /// Whether every identifier has been handed out.
    pub fn is_exhausted(&self) -> (r: bool)
        ensures
            r == (self@ == u64::MAX),
    {
        self.next == u64::MAX
    }
}

impl BlankNode {
    /// A node distinct from every node that `generator` handed out before.
    pub fn construct_fresh(generator: &mut BlankNodeGenerator) -> (r: BlankNode)
        requires
            old(generator)@ < u64::MAX,
        ensures
            r@ == old(generator)@,
            final(generator)@ == old(generator)@ + 1,
            !old(generator).issued().contains(r@),
            final(generator).issued() == old(generator).issued().insert(r@),
    {
        let id = generator.next;
        generator.next = id + 1;
        let r = BlankNode { id };
        assert(final(generator).issued() =~= old(generator).issued().insert(r@));
        r
    }

    /// The identifier.
    pub fn id(&self) -> (r: u64)
        ensures
            r == self@,
    {
        self.id
    }
}

/// The comparison of two integers.
pub open spec fn u64_cmp(a: u64, b: u64) -> Ordering {
    if a < b {
        Ordering::Less
    } else if a > b {
        Ordering::Greater
    } else {
        Ordering::Equal
    }
}

impl Term for BlankNode {
    /// `_:` followed by the identifier in decimal.
    open spec fn text(&self) -> Seq<char> {
        seq!['_', ':'] + decimal(self@ as nat)
    }

    /// Blank nodes are ordered by their identifiers.
    open spec fn order(&self, other: &Self) -> Ordering {
        u64_cmp(self@, other@)
    }

    fn to_display_string(&self) -> (r: String) {
        let mut out = String::new();
        proof {
            reveal_strlit("_:");
        }
        out.append("_:");
        let digits = decimal_string(self.id);
        out.append(digits.as_str());
        out
    }

    fn compare(&self, other: &Self) -> (r: Ordering) {
        if self.id < other.id {
            Ordering::Less
        } else if self.id > other.id {
            Ordering::Greater
        } else {
            Ordering::Equal
        }
    }
}

/// `nodes[i]` is what the `i`-th draw returned, from the generator
/// `states[i]`, which it left as `states[i + 1]`.
pub open spec fn drawn_in_turn(states: Seq<BlankNodeGenerator>, nodes: Seq<BlankNode>) -> bool {
    &&& states.len() == nodes.len() + 1
    &&& forall|i: int|
        0 <= i < nodes.len() ==> #[trigger] nodes[i]@ == states[i]@ && states[i + 1]@ == states[i]@
            + 1
}

proof fn lemma_generator_steps(states: Seq<BlankNodeGenerator>, nodes: Seq<BlankNode>, k: int)
    requires
        drawn_in_turn(states, nodes),
        0 <= k <= nodes.len(),
    ensures
        states[k]@ == states[0]@ + k,
    decreases k,
{
    if k > 0 {
        lemma_generator_steps(states, nodes, k - 1);
        assert(nodes[k - 1]@ == states[k - 1]@);
    }
}

/// Nodes drawn one after another from a generator are pairwise distinct.
pub proof fn lemma_fresh_nodes_distinct(states: Seq<BlankNodeGenerator>, nodes: Seq<BlankNode>)
    requires
        drawn_in_turn(states, nodes),
    ensures
        forall|i: int, j: int|
            0 <= i < nodes.len() && 0 <= j < nodes.len() && i != j ==> #[trigger] nodes[i]@
                != #[trigger] nodes[j]@,
{
    assert forall|i: int| 0 <= i < nodes.len() implies #[trigger] nodes[i]@ == states[0]@ + i by {
        lemma_generator_steps(states, nodes, i);
    }
}

/// Two blank nodes compare equal exactly when they have one identifier, the
/// order is antisymmetric and transitive, and equal nodes hash alike.
pub proof fn lemma_blank_node_order(x: &BlankNode, y: &BlankNode, z: &BlankNode, o: Ordering)
    ensures
        (x.order(y) == Ordering::Equal) <==> x@ == y@,
        y.order(x) == flip(x.order(y)),
        x.order(y) == o && y.order(z) == o ==> x.order(z) == o,
        x.order(y) == Ordering::Equal ==> crate::term::term_hash(x) == crate::term::term_hash(y),
{
}

proof fn lemma_digit_injective(a: nat, b: nat)
    requires
        a < 10,
        b < 10,
        digit(a) == digit(b),
    ensures
        a == b,
{
    let d = seq!['0', '1', '2', '3', '4', '5', '6', '7', '8', '9'];
    assert(d[0] == '0' && d[1] == '1' && d[2] == '2' && d[3] == '3' && d[4] == '4');
    assert(d[5] == '5' && d[6] == '6' && d[7] == '7' && d[8] == '8' && d[9] == '9');
}

proof fn lemma_decimal_injective(n: nat, m: nat)
    requires
        decimal(n) == decimal(m),
    ensures
        n == m,
    decreases n,
{
    let (s, t) = (decimal(n), decimal(m));
    if n >= 10 {
        assert(decimal(n / 10).len() >= 1) by {
            reveal_with_fuel(decimal, 2);
        }
    }
    if m >= 10 {
        assert(decimal(m / 10).len() >= 1) by {
            reveal_with_fuel(decimal, 2);
        }
    }
    assert(s.last() == digit(n % 10));
    assert(t.last() == digit(m % 10));
    lemma_digit_injective(n % 10, m % 10);
    if n >= 10 && m >= 10 {
        assert(decimal(n / 10) =~= s.drop_last());
        assert(decimal(m / 10) =~= t.drop_last());
        lemma_decimal_injective(n / 10, m / 10);
    }
}

/// The text form identifies a blank node: two blank nodes with the same text
/// form are the same node.
pub proof fn lemma_blank_node_text_injective(x: &BlankNode, y: &BlankNode)
    requires
        x.text() == y.text(),
    ensures
        x@ == y@,
{
    assert(decimal(x@ as nat) =~= x.text().skip(2));
    assert(decimal(y@ as nat) =~= y.text().skip(2));
    lemma_decimal_injective(x@ as nat, y@ as nat);
}

impl PartialEq for BlankNode {
    /// Blank nodes are equal when their identifiers are.
    fn eq(&self, other: &BlankNode) -> (r: bool) {
        self.id == other.id
    }
}

impl vstd::std_specs::cmp::PartialEqSpecImpl for BlankNode {
    open spec fn obeys_eq_spec() -> bool {
        true
    }

    open spec fn eq_spec(&self, other: &BlankNode) -> bool {
        self@ == other@
    }
}

} // verus!
