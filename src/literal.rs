//! Literals: a lexical value with either no tag, a language tag or a datatype.
use core::cmp::Ordering;
use vstd::prelude::*;
use vstd::string::{StrSliceExecFns, StringExecFns};

use crate::named_node::NamedNode;
use crate::order::{
    compare_str, flip, lemma_str_cmp_equal, lemma_str_cmp_flip, lemma_str_cmp_transitive,
    str_cmp,
};
use crate::term::Term;

verus! {

/// The datatype of literals with neither language tag nor datatype.
pub open spec fn xsd_string() -> Seq<char> {
    "http://www.w3.org/2001/XMLSchema#string"@
}

/// The datatype of every language-tagged literal.
pub open spec fn rdf_lang_string() -> Seq<char> {
    "http://www.w3.org/1999/02/22-rdf-syntax-ns#langString"@
}

/// What a literal carries besides its value: at most one of a language tag
/// and a datatype.
#[derive(Debug)]
pub enum LiteralTag {
    Simple,
    LanguageTagged(String),
    Typed(NamedNode),
}

/// A literal term.
#[derive(Debug)]
pub struct Literal {
    value: String,
    tag: LiteralTag,
}

/// The model of a literal: its value, its language tag if any, and its
/// effective datatype IRI.
pub type LiteralModel = (Seq<char>, Option<Seq<char>>, Seq<char>);

impl View for Literal {
    type V = LiteralModel;

    closed spec fn view(&self) -> LiteralModel {
        (
            self.value@,
            match self.tag {
                LiteralTag::LanguageTagged(l) => Some(l@),
                _ => None,
            },
            match self.tag {
                LiteralTag::Simple => xsd_string(),
                LiteralTag::LanguageTagged(_) => rdf_lang_string(),
                LiteralTag::Typed(d) => d@,
            },
        )
    }
}

/// The escape sequence that stands for `c` between double quotes.
pub open spec fn escape_char(c: char) -> Seq<char> {
    if c == '"' {
        seq!['\\', '"']
    } else if c == '\\' {
        seq!['\\', '\\']
    } else if c == '\n' {
        seq!['\\', 'n']
    } else if c == '\r' {
        seq!['\\', 'r']
    } else {
        seq![c]
    }
}

/// A string with each character escaped as in N-Triples string literals.
pub open spec fn escape(s: Seq<char>) -> Seq<char>
    decreases s.len(),
{
    if s.len() == 0 {
        Seq::empty()
    } else {
        escape(s.drop_last()) + escape_char(s.last())
    }
}

/// The canonical text form of a literal with model `m`: the quoted, escaped
/// value, then `@` and the language tag, or `^^<...>` with the datatype IRI
/// unless it is the plain string datatype.
pub open spec fn literal_text(m: LiteralModel) -> Seq<char> {
    let quoted = seq!['"'] + escape(m.0) + seq!['"'];
    match m.1 {
        Some(l) => quoted + seq!['@'] + l,
        None => if m.2 == xsd_string() {
            quoted
        } else {
            quoted + seq!['^', '^', '<'] + m.2 + seq!['>']
        },
    }
}

/// Optional strings ordered with absence first.
pub open spec fn option_cmp(a: Option<Seq<char>>, b: Option<Seq<char>>) -> Ordering {
    match (a, b) {
        (None, None) => Ordering::Equal,
        (None, Some(_)) => Ordering::Less,
        (Some(_), None) => Ordering::Greater,
        (Some(x), Some(y)) => str_cmp(x, y),
    }
}

/// Literals ordered by value, then language tag, then datatype IRI.
pub open spec fn literal_cmp(a: LiteralModel, b: LiteralModel) -> Ordering {
    if str_cmp(a.0, b.0) != Ordering::Equal {
        str_cmp(a.0, b.0)
    } else if option_cmp(a.1, b.1) != Ordering::Equal {
        option_cmp(a.1, b.1)
    } else {
        str_cmp(a.2, b.2)
    }
}

fn escape_value(s: &str) -> (r: String)
    ensures
        r@ == escape(s@),
{
    let n: usize = s.unicode_len();
    let mut out = String::new();
    let mut i: usize = 0;
    while i < n
        invariant
            n == s@.len(),
            i <= n,
            out@ == escape(s@.subrange(0, i as int)),
        decreases n - i,
    {
        let c = s.get_char(i);
        proof {
            assert(s@.subrange(0, i + 1).drop_last() =~= s@.subrange(0, i as int));
            reveal_strlit("\\\"");
            reveal_strlit("\\\\");
            reveal_strlit("\\n");
            reveal_strlit("\\r");
        }
        if c == '"' {
            out.append("\\\"");
        } else if c == '\\' {
            out.append("\\\\");
        } else if c == '\n' {
            out.append("\\n");
        } else if c == '\r' {
            out.append("\\r");
        } else {
            out.append(s.substring_char(i, i + 1));
        }
        assert(out@ =~= escape(s@.subrange(0, i + 1)));
        i = i + 1;
    }
    assert(s@.subrange(0, n as int) =~= s@);
    out
}

fn compare_options(a: &Option<String>, b: &Option<String>) -> (r: Ordering)
    ensures
        r == option_cmp(
            match a {
                Some(x) => Some(x@),
                None => None,
            },
            match b {
                Some(y) => Some(y@),
                None => None,
            },
        ),
{
    match (a, b) {
        (None, None) => Ordering::Equal,
        (None, Some(_)) => Ordering::Less,
        (Some(_), None) => Ordering::Greater,
        (Some(x), Some(y)) => compare_str(x.as_str(), y.as_str()),
    }
}

impl Literal {
    /// Builds a literal. A language tag, when given, wins over any datatype
    /// and makes the datatype `rdf:langString`; otherwise the datatype is the
    /// one given, or `xsd:string` when none is. The value is kept as it is.
    pub fn construct(value: String, language: Option<String>, datatype: Option<NamedNode>) -> (r:
        Literal)
        ensures
            r@.0 == value@,
            r@.1 == match language {
                Some(l) => Some(l@),
                None => None::<Seq<char>>,
            },
            r@.2 == match (language, datatype) {
                (Some(_), _) => rdf_lang_string(),
                (None, Some(d)) => d@,
                (None, None) => xsd_string(),
            },
    {
        let tag = match language {
            Some(l) => LiteralTag::LanguageTagged(l),
            None => match datatype {
                Some(d) => LiteralTag::Typed(d),
                None => LiteralTag::Simple,
            },
        };
        Literal { value, tag }
    }

    /// The lexical value.
    pub fn value(&self) -> (r: String)
        ensures
            r@ == self@.0,
    {
        self.value.as_str().to_owned()
    }

    /// The language tag, present only for a language-tagged literal.
    pub fn language(&self) -> (r: Option<String>)
        ensures
            match r {
                Some(l) => self@.1 == Some(l@),
                None => self@.1 == None::<Seq<char>>,
            },
    {
        match &self.tag {
            LiteralTag::LanguageTagged(l) => Some(l.as_str().to_owned()),
            _ => None,
        }
    }

    /// The effective datatype, never absent.
    pub fn datatype(&self) -> (r: NamedNode)
        ensures
            r@ == self@.2,
    {
        match &self.tag {
            LiteralTag::Simple => NamedNode::well_known("http://www.w3.org/2001/XMLSchema#string"),
            LiteralTag::LanguageTagged(_) => NamedNode::well_known("http://www.w3.org/1999/02/22-rdf-syntax-ns#langString"),
            LiteralTag::Typed(d) => d.duplicate(),
        }
    }
}

impl Term for Literal {
    open spec fn text(&self) -> Seq<char> {
        literal_text(self@)
    }

    open spec fn order(&self, other: &Self) -> Ordering {
        literal_cmp(self@, other@)
    }

    fn to_display_string(&self) -> (r: String) {
        let mut out = String::new();
        proof {
            reveal_strlit("\"");
            reveal_strlit("@");
            reveal_strlit("^^<");
            reveal_strlit(">");
        }
        out.append("\"");
        let escaped = escape_value(self.value.as_str());
        out.append(escaped.as_str());
        out.append("\"");
        match &self.tag {
            LiteralTag::LanguageTagged(l) => {
                out.append("@");
                out.append(l.as_str());
            },
            LiteralTag::Simple => {},
            LiteralTag::Typed(d) => {
                let o = compare_str(d.as_str(), "http://www.w3.org/2001/XMLSchema#string");
                proof {
                    lemma_str_cmp_equal(d@, xsd_string());
                }
                if !matches!(o, Ordering::Equal) {
                    out.append("^^<");
                    out.append(d.as_str());
                    out.append(">");
                }
            },
        }
        assert(out@ =~= literal_text(self@));
        out
    }

    fn compare(&self, other: &Self) -> (r: Ordering) {
        let v = compare_str(self.value.as_str(), other.value.as_str());
        if !matches!(v, Ordering::Equal) {
            return v;
        }
        let l = compare_options(&self.language(), &other.language());
        if !matches!(l, Ordering::Equal) {
            return l;
        }
        let a = self.datatype();
        let b = other.datatype();
        compare_str(a.as_str(), b.as_str())
    }
}

proof fn lemma_option_cmp(a: Option<Seq<char>>, b: Option<Seq<char>>)
    ensures
        (option_cmp(a, b) == Ordering::Equal) <==> a == b,
        option_cmp(b, a) == flip(option_cmp(a, b)),
{
    if let (Some(x), Some(y)) = (a, b) {
        lemma_str_cmp_equal(x, y);
        lemma_str_cmp_flip(x, y);
    }
}

proof fn lemma_option_cmp_transitive(
    a: Option<Seq<char>>,
    b: Option<Seq<char>>,
    c: Option<Seq<char>>,
    o: Ordering,
)
    requires
        option_cmp(a, b) == o,
        option_cmp(b, c) == o,
    ensures
        option_cmp(a, c) == o,
{
    if let (Some(x), Some(y), Some(z)) = (a, b, c) {
        lemma_str_cmp_transitive(x, y, z, o);
    }
}

/// Two literals compare equal exactly when their models are equal, swapping
/// them reverses the comparison, and equal literals hash alike: for any two
/// literals exactly one of less, equal and greater holds.
pub proof fn lemma_literal_order_total(x: &Literal, y: &Literal)
    ensures
        (x.order(y) == Ordering::Equal) <==> x@ == y@,
        y.order(x) == flip(x.order(y)),
        x.order(y) == Ordering::Equal ==> crate::term::term_hash(x) == crate::term::term_hash(y),
{
    let (a, b) = (x@, y@);
    lemma_str_cmp_equal(a.0, b.0);
    lemma_str_cmp_flip(a.0, b.0);
    lemma_option_cmp(a.1, b.1);
    lemma_str_cmp_equal(a.2, b.2);
    lemma_str_cmp_flip(a.2, b.2);
}

/// The order on literals is transitive, so that sorting them is deterministic.
pub proof fn lemma_literal_order_transitive(x: &Literal, y: &Literal, z: &Literal, o: Ordering)
    requires
        x.order(y) == o,
        y.order(z) == o,
    ensures
        x.order(z) == o,
{
    let (a, b, c) = (x@, y@, z@);
    lemma_str_cmp_equal(a.0, b.0);
    lemma_str_cmp_equal(b.0, c.0);
    lemma_str_cmp_equal(a.0, c.0);
    lemma_option_cmp(a.1, b.1);
    lemma_option_cmp(b.1, c.1);
    lemma_option_cmp(a.1, c.1);
    if str_cmp(a.0, b.0) != Ordering::Equal && str_cmp(b.0, c.0) != Ordering::Equal {
        lemma_str_cmp_transitive(a.0, b.0, c.0, o);
    } else if str_cmp(a.0, b.0) == Ordering::Equal && str_cmp(b.0, c.0) == Ordering::Equal {
        if option_cmp(a.1, b.1) != Ordering::Equal && option_cmp(b.1, c.1) != Ordering::Equal {
            lemma_option_cmp_transitive(a.1, b.1, c.1, o);
        } else if option_cmp(a.1, b.1) == Ordering::Equal && option_cmp(b.1, c.1)
            == Ordering::Equal {
            lemma_str_cmp_transitive(a.2, b.2, c.2, o);
        }
    }
}

proof fn lemma_escape_append(a: Seq<char>, b: Seq<char>)
    ensures
        escape(a + b) == escape(a) + escape(b),
    decreases b.len(),
{
    if b.len() == 0 {
        assert(a + b =~= a);
        assert(escape(a) + escape(b) =~= escape(a));
    } else {
        assert((a + b).drop_last() =~= a + b.drop_last());
        assert((a + b).last() == b.last());
        lemma_escape_append(a, b.drop_last());
        assert(escape(a + b) =~= escape(a) + escape(b));
    }
}

proof fn lemma_escape_front(s: Seq<char>)
    requires
        s.len() > 0,
    ensures
        escape(s) == escape_char(s[0]) + escape(s.drop_first()),
{
    let head = seq![s[0]];
    assert(s =~= head + s.drop_first());
    lemma_escape_append(head, s.drop_first());
    assert(head.drop_last() =~= Seq::<char>::empty());
    assert(head.last() == s[0]);
    assert(escape(head.drop_last()) == Seq::<char>::empty());
    assert(escape(head) =~= escape_char(s[0]));
}

/// An escaped string followed by a closing quote can be split in one way only.
proof fn lemma_escape_quote_unique(s1: Seq<char>, s2: Seq<char>, t1: Seq<char>, t2: Seq<char>)
    requires
        escape(s1) + seq!['"'] + t1 == escape(s2) + seq!['"'] + t2,
    ensures
        s1 == s2,
        t1 == t2,
    decreases s1.len() + s2.len(),
{
    let w = escape(s1) + seq!['"'] + t1;
    if s1.len() == 0 && s2.len() == 0 {
        assert(s1 =~= s2);
        assert(t1 =~= w.drop_first());
        assert(t2 =~= w.drop_first());
    } else if s1.len() == 0 {
        lemma_escape_front(s2);
        assert(w[0] == '"');
        assert(w[0] == escape_char(s2[0])[0]);
    } else if s2.len() == 0 {
        lemma_escape_front(s1);
        assert(w[0] == '"');
        assert(w[0] == escape_char(s1[0])[0]);
    } else {
        lemma_escape_front(s1);
        lemma_escape_front(s2);
        let (c1, c2) = (s1[0], s2[0]);
        let (x1, x2) = (escape_char(c1), escape_char(c2));
        let r1 = escape(s1.drop_first()) + seq!['"'] + t1;
        let r2 = escape(s2.drop_first()) + seq!['"'] + t2;
        assert(w =~= x1 + r1);
        assert(w =~= x2 + r2);
        assert(w[0] == x1[0] && w[0] == x2[0]);
        if x1.len() == 2 && x2.len() == 2 {
            assert(w[1] == x1[1] && w[1] == x2[1]);
        }
        assert(c1 == c2);
        assert(r1 =~= w.subrange(x1.len() as int, w.len() as int));
        assert(r2 =~= w.subrange(x2.len() as int, w.len() as int));
        lemma_escape_quote_unique(s1.drop_first(), s2.drop_first(), t1, t2);
        assert(s1 =~= seq![c1] + s1.drop_first());
        assert(s2 =~= seq![c2] + s2.drop_first());
    }
}

/// The suffix that follows the closing quote of a literal's text form.
pub open spec fn literal_suffix(m: LiteralModel) -> Seq<char> {
    match m.1 {
        Some(l) => seq!['@'] + l,
        None => if m.2 == xsd_string() {
            Seq::empty()
        } else {
            seq!['^', '^', '<'] + m.2 + seq!['>']
        },
    }
}

proof fn lemma_literal_text_split(m: LiteralModel)
    ensures
        literal_text(m) == seq!['"'] + (escape(m.0) + seq!['"'] + literal_suffix(m)),
{
    assert(literal_text(m) =~= seq!['"'] + (escape(m.0) + seq!['"'] + literal_suffix(m)));
}

proof fn lemma_literal_lang_string(x: &Literal)
    ensures
        x@.1 is Some ==> x@.2 == rdf_lang_string(),
{
}

/// The text form identifies a literal: two literals with the same text form
/// are equal, so the text can be read back into the literal it came from.
pub proof fn lemma_literal_text_injective(x: &Literal, y: &Literal)
    requires
        x.text() == y.text(),
    ensures
        x@ == y@,
{
    let (a, b) = (x@, y@);
    lemma_literal_lang_string(x);
    lemma_literal_lang_string(y);
    lemma_literal_text_split(a);
    lemma_literal_text_split(b);
    let w = literal_text(a);
    assert(escape(a.0) + seq!['"'] + literal_suffix(a) =~= w.drop_first());
    assert(escape(b.0) + seq!['"'] + literal_suffix(b) =~= w.drop_first());
    lemma_escape_quote_unique(a.0, b.0, literal_suffix(a), literal_suffix(b));
    let (u, v) = (literal_suffix(a), literal_suffix(b));
    assert(u == v);
    if u.len() > 0 {
        assert(u[0] == v[0]);
    }
    match (a.1, b.1) {
        (Some(l1), Some(l2)) => {
            assert(l1 =~= u.drop_first());
            assert(l2 =~= v.drop_first());
        },
        (None, None) => {
            if a.2 != xsd_string() && b.2 != xsd_string() {
                assert(a.2 =~= u.subrange(3, u.len() - 1));
                assert(b.2 =~= v.subrange(3, v.len() - 1));
            }
        },
        _ => {},
    }
}

impl PartialEq for Literal {
    /// Literals are equal when value, language tag and effective datatype
    /// all are.
    fn eq(&self, other: &Literal) -> (r: bool) {
        proof {
            lemma_literal_order_total(self, other);
        }
        matches!(self.compare(other), Ordering::Equal)
    }
}

impl vstd::std_specs::cmp::PartialEqSpecImpl for Literal {
    open spec fn obeys_eq_spec() -> bool {
        true
    }

    open spec fn eq_spec(&self, other: &Literal) -> bool {
        self@ == other@
    }
}

} // verus!
