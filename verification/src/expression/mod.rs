//! The search language: its elements, how a query is written out, and how a
//! piece of text becomes an SQL string literal.

use vstd::prelude::*;
use crate::text::{chars_of, push_char, push_range};

pub mod modifier;
pub mod parser;

verus! {

/// One element of a query.
#[derive(Clone, Debug, PartialEq)]
pub enum Expression {
    /// A character that belongs to no other element.
    Any(char),
    /// A run of delimiter characters.
    Delimiter(String),
    /// A tag reference; the text after `#`.
    NoirTag(String),
    /// A path fragment; the text between backticks.
    PathSegment(String),
    /// A quoted string, with `''` already decoded to `'`.
    StringLiteral(String),
    /// A run of characters that are not delimiters.
    Term(String),
}

/// What an [`Expression`] holds, as mathematical values.
pub enum ExpressionView {
    Any(char),
    Delimiter(Seq<char>),
    NoirTag(Seq<char>),
    PathSegment(Seq<char>),
    StringLiteral(Seq<char>),
    Term(Seq<char>),
}

impl View for Expression {
    type V = ExpressionView;

    open spec fn view(&self) -> ExpressionView {
        match self {
            Expression::Any(c) => ExpressionView::Any(*c),
            Expression::Delimiter(s) => ExpressionView::Delimiter(s@),
            Expression::NoirTag(s) => ExpressionView::NoirTag(s@),
            Expression::PathSegment(s) => ExpressionView::PathSegment(s@),
            Expression::StringLiteral(s) => ExpressionView::StringLiteral(s@),
            Expression::Term(s) => ExpressionView::Term(s@),
        }
    }
}

/// A parsed query: its elements in the order they were written.
#[derive(Clone, Debug, PartialEq)]
pub struct NoirQuery {
    pub elements: Vec<Expression>,
}

impl View for NoirQuery {
    type V = Seq<ExpressionView>;

    open spec fn view(&self) -> Seq<ExpressionView> {
        element_views(self.elements@)
    }
}

/// The views of a sequence of elements.
pub open spec fn element_views(elements: Seq<Expression>) -> Seq<ExpressionView> {
    Seq::new(elements.len(), |i: int| elements[i]@)
}

/// An expanded query: text that goes behind `WHERE`.
#[derive(Clone, Debug, PartialEq)]
pub struct RawQuery(pub String);

impl View for RawQuery {
    type V = Seq<char>;

    open spec fn view(&self) -> Seq<char> {
        self.0@
    }
}

/// `s` with every apostrophe written twice.
pub open spec fn double_quotes(s: Seq<char>) -> Seq<char>
    decreases s.len(),
{
    if s.len() == 0 {
        Seq::empty()
    } else if s[0] == '\'' {
        seq!['\'', '\''] + double_quotes(s.skip(1))
    } else {
        seq![s[0]] + double_quotes(s.skip(1))
    }
}

/// `s` as an SQL string literal: between apostrophes, each apostrophe of `s`
/// doubled.
pub open spec fn literal_text(s: Seq<char>) -> Seq<char> {
    seq!['\''] + double_quotes(s) + seq!['\'']
}

/// How one element is written in the search language.
pub open spec fn render_element(e: ExpressionView) -> Seq<char> {
    match e {
        ExpressionView::Any(c) => seq![c],
        ExpressionView::Delimiter(s) => s,
        ExpressionView::NoirTag(t) => seq!['#'] + t,
        ExpressionView::PathSegment(s) => seq!['`'] + s + seq!['`'],
        ExpressionView::StringLiteral(s) => literal_text(s),
        ExpressionView::Term(s) => s,
    }
}

/// How a query is written in the search language: its elements one after
/// another.
pub open spec fn render(elements: Seq<ExpressionView>) -> Seq<char>
    decreases elements.len(),
{
    if elements.len() == 0 {
        Seq::empty()
    } else {
        render(elements.drop_last()) + render_element(elements.last())
    }
}

/// Doubling apostrophes goes through a concatenation.
pub proof fn lemma_double_quotes_push(s: Seq<char>, c: char)
    ensures
        double_quotes(s.push(c)) == double_quotes(s) + (if c == '\'' {
            seq!['\'', '\'']
        } else {
            seq![c]
        }),
    decreases s.len(),
{
    if s.len() == 0 {
        assert(s.push(c).skip(1) =~= Seq::<char>::empty());
        assert(double_quotes(s.push(c).skip(1)) =~= Seq::<char>::empty());
        assert(double_quotes(s) =~= Seq::<char>::empty());
        assert(double_quotes(s.push(c)) =~= double_quotes(s) + (if c == '\'' {
            seq!['\'', '\'']
        } else {
            seq![c]
        }));
    } else {
        lemma_double_quotes_push(s.skip(1), c);
        assert(s.push(c).skip(1) =~= s.skip(1).push(c));
        assert(double_quotes(s.push(c)) =~= double_quotes(s) + (if c == '\'' {
            seq!['\'', '\'']
        } else {
            seq![c]
        }));
    }
}

/// Appends to `out` the characters of `v` with each apostrophe doubled.
pub fn push_doubled(out: &mut String, v: &Vec<char>)
    ensures
        final(out)@ == old(out)@ + double_quotes(v@),
{
    let mut i: usize = 0;
    assert(v@.take(0) =~= Seq::<char>::empty());
    while i < v.len()
        invariant
            i <= v.len(),
            out@ == old(out)@ + double_quotes(v@.take(i as int)),
        decreases v.len() - i,
    {
        let c = v[i];
        proof {
            lemma_double_quotes_push(v@.take(i as int), c);
            assert(v@.take(i + 1) =~= v@.take(i as int).push(c));
        }
        if c == '\'' {
            push_char(out, '\'');
            push_char(out, '\'');
            assert(out@ =~= old(out)@ + double_quotes(v@.take(i + 1)));
        } else {
            push_char(out, c);
            assert(out@ =~= old(out)@ + double_quotes(v@.take(i + 1)));
        }
        i += 1;
    }
    assert(v@.take(v.len() as int) =~= v@);
}

/// Appends to `out` the SQL string literal for the characters of `v`.
pub fn push_literal(out: &mut String, v: &Vec<char>)
    ensures
        final(out)@ == old(out)@ + literal_text(v@),
{
    push_char(out, '\'');
    push_doubled(out, v);
    push_char(out, '\'');
    assert(out@ =~= old(out)@ + literal_text(v@));
}

/// The SQL string literal for `s`: `s` between apostrophes, with each
/// apostrophe inside it doubled.
pub fn string_literal(s: &str) -> (result: String)
    ensures
        result@ == literal_text(s@),
{
    let v = chars_of(s);
    let mut result = String::new();
    push_literal(&mut result, &v);
    assert(result@ =~= literal_text(s@));
    result
}

impl RawQuery {
    pub fn new(q: String) -> (result: Self)
        ensures
            result@ == q@,
    {
        RawQuery(q)
    }

    /// The text of the query.
    pub fn to_string(&self) -> (result: String)
        ensures
            result@ == self@,
    {
        self.0.clone()
    }

    /// The text of the query, borrowed.
    pub fn as_ref(&self) -> (result: &str)
        ensures
            result@ == self@,
    {
        self.0.as_str()
    }
}

/// Appends to `out` one element as the search language writes it.
pub fn push_element(out: &mut String, e: &Expression)
    ensures
        final(out)@ == old(out)@ + render_element(e@),
{
    match e {
        Expression::Any(c) => {
            push_char(out, *c);
            assert(out@ =~= old(out)@ + render_element(e@));
        },
        Expression::Delimiter(s) => {
            out.append(s.as_str());
        },
        Expression::NoirTag(t) => {
            push_char(out, '#');
            out.append(t.as_str());
            assert(out@ =~= old(out)@ + render_element(e@));
        },
        Expression::PathSegment(s) => {
            push_char(out, '`');
            out.append(s.as_str());
            push_char(out, '`');
            assert(out@ =~= old(out)@ + render_element(e@));
        },
        Expression::StringLiteral(s) => {
            let v = chars_of(s.as_str());
            push_literal(out, &v);
        },
        Expression::Term(s) => {
            out.append(s.as_str());
        },
    }
}

impl NoirQuery {
    /// The query as text in the search language.
    pub fn to_string(&self) -> (result: String)
        ensures
            result@ == render(self@),
    {
        let mut result = String::new();
        let mut i: usize = 0;
        assert(self@.take(0) =~= Seq::<ExpressionView>::empty());
        while i < self.elements.len()
            invariant
                i <= self.elements.len(),
                result@ == render(self@.take(i as int)),
            decreases self.elements.len() - i,
        {
            push_element(&mut result, &self.elements[i]);
            proof {
                let next = self@.take(i + 1);
                assert(next.drop_last() =~= self@.take(i as int));
                assert(next.last() == self.elements@[i as int]@);
            }
            i += 1;
        }
        assert(self@.take(self.elements.len() as int) =~= self@);
        result
    }
}

} // verus!
