//! The contract shared by all terms: a canonical text form, a total order,
//! rich comparison and a hash consistent with equality.
use core::cmp::Ordering;
use std::collections::hash_map::DefaultHasher;
use std::hash::Hasher;
use vstd::prelude::*;
use vstd::std_specs::hash::DefaultHasherAdditionalSpecFns;
use vstd::utf8::encode_utf8;

verus! {

/// What every kind of term offers.
pub trait Term {
    /// The canonical text form.
    spec fn text(&self) -> Seq<char>;

    /// The total order between two terms of the same kind.
    spec fn order(&self, other: &Self) -> Ordering;

    /// Returns the canonical text form.
    fn to_display_string(&self) -> (r: String)
        ensures
            r@ == self.text(),
    ;

    /// Compares two terms in the total order.
    fn compare(&self, other: &Self) -> (r: Ordering)
        ensures
            r == self.order(other),
    ;
}

/// The six comparison operators.
#[derive(Clone, Copy, Debug, PartialEq, Eq)]
pub enum CompareOp {
    Lt,
    Le,
    Eq,
    Ne,
    Gt,
    Ge,
}

/// Whether operator `op` holds between two values that compare as `o`.
pub open spec fn op_holds(op: CompareOp, o: Ordering) -> bool {
    match op {
        CompareOp::Lt => o == Ordering::Less,
        CompareOp::Le => o != Ordering::Greater,
        CompareOp::Eq => o == Ordering::Equal,
        CompareOp::Ne => o != Ordering::Equal,
        CompareOp::Gt => o == Ordering::Greater,
        CompareOp::Ge => o != Ordering::Less,
    }
}

/// Applies comparison operator `op` to two terms.
pub fn eq_compare<T: Term>(a: &T, b: &T, op: CompareOp) -> (r: bool)
    ensures
        r == op_holds(op, a.order(b)),
{
    let o = a.compare(b);
    match op {
        CompareOp::Lt => matches!(o, Ordering::Less),
        CompareOp::Le => !matches!(o, Ordering::Greater),
        CompareOp::Eq => matches!(o, Ordering::Equal),
        CompareOp::Ne => !matches!(o, Ordering::Equal),
        CompareOp::Gt => matches!(o, Ordering::Greater),
        CompareOp::Ge => !matches!(o, Ordering::Less),
    }
}

/// The hash of a term: the default hasher fed once with the UTF-8 bytes of
/// its canonical text form.
pub open spec fn term_hash<T: Term>(t: &T) -> u64 {
    DefaultHasher::spec_finish(seq![encode_utf8(t.text())])
}

/// Hashes a term with the standard library's default hasher.
pub fn hash<T: Term>(t: &T) -> (r: u64)
    ensures
        r == term_hash(t),
{
    let s = t.to_display_string();
    let mut h = DefaultHasher::new();
    h.write(s.as_str().as_bytes());
    h.finish()
}

} // verus!
