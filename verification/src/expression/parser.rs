//! The tokeniser of the search language.
//!
//! A query is cut into elements from left to right. At each position the
//! first of these that applies is taken: a tag (`#` and its name), a quoted
//! string, a backtick-delimited path fragment, a term, a run of delimiters,
//! a single character.

use vstd::prelude::*;
use crate::errors::AppResult;
use crate::text::{chars_of, push_char, string_of_range};
use super::{
    double_quotes, element_views, render, render_element, Expression, ExpressionView, NoirQuery,
};

verus! {

/// The classes of characters that the tokeniser tells apart.
#[derive(Clone, Copy)]
pub enum CharClass {
    /// One of tab, space, carriage return, line feed, `(`, `)`, `<`, `>`, `=`.
    Delimiter,
    /// Anything but a delimiter.
    Term,
    /// What a tag name may hold: anything but a delimiter and `"`.
    Tag,
    /// Anything but a backtick.
    PathBody,
}

pub open spec fn is_delimiter(c: char) -> bool {
    c == '\t' || c == ' ' || c == '\r' || c == '\n' || c == '(' || c == ')' || c == '<' || c
        == '>' || c == '='
}

pub open spec fn in_class(class: CharClass, c: char) -> bool {
    match class {
        CharClass::Delimiter => is_delimiter(c),
        CharClass::Term => !is_delimiter(c),
        CharClass::Tag => !is_delimiter(c) && c != '"',
        CharClass::PathBody => c != '`',
    }
}

/// The number of characters of `class` that follow each other from `from` on.
pub open spec fn run_len(s: Seq<char>, from: int, class: CharClass) -> int
    decreases s.len() - from,
{
    if 0 <= from < s.len() && in_class(class, s[from]) {
        1 + run_len(s, from + 1, class)
    } else {
        0
    }
}

/// Where the body of a quoted string ends that begins at `from`: at the first
/// apostrophe that is not followed by a second one, or at the end of `s`.
pub open spec fn quoted_end(s: Seq<char>, from: int) -> int
    decreases s.len() - from,
{
    if from < 0 || from >= s.len() {
        from
    } else if s[from] != '\'' {
        quoted_end(s, from + 1)
    } else if from + 1 < s.len() && s[from + 1] == '\'' {
        quoted_end(s, from + 2)
    } else {
        from
    }
}

/// The text of a quoted string whose body begins at `from`, with each `''`
/// read as one apostrophe.
pub open spec fn quoted_body(s: Seq<char>, from: int) -> Seq<char>
    decreases s.len() - from,
{
    if from < 0 || from >= s.len() {
        Seq::empty()
    } else if s[from] != '\'' {
        seq![s[from]] + quoted_body(s, from + 1)
    } else if from + 1 < s.len() && s[from + 1] == '\'' {
        seq!['\''] + quoted_body(s, from + 2)
    } else {
        Seq::empty()
    }
}

/// A tag at `from`: `#` and at least one tag character. The element and the
/// position behind it.
pub open spec fn noir_tag_at(s: Seq<char>, from: int) -> Option<(ExpressionView, int)> {
    if 0 <= from < s.len() && s[from] == '#' && run_len(s, from + 1, CharClass::Tag) > 0 {
        let end = from + 1 + run_len(s, from + 1, CharClass::Tag);
        Some((ExpressionView::NoirTag(s.subrange(from + 1, end)), end))
    } else {
        None
    }
}

/// A quoted string at `from`: an apostrophe, the body, the closing apostrophe.
pub open spec fn string_literal_at(s: Seq<char>, from: int) -> Option<(ExpressionView, int)> {
    if 0 <= from < s.len() && s[from] == '\'' && quoted_end(s, from + 1) < s.len() {
        Some((ExpressionView::StringLiteral(quoted_body(s, from + 1)), quoted_end(s, from + 1) + 1))
    } else {
        None
    }
}

/// A path fragment at `from`: a backtick, any characters but a backtick, a
/// backtick.
pub open spec fn path_segment_at(s: Seq<char>, from: int) -> Option<(ExpressionView, int)> {
    if 0 <= from < s.len() && s[from] == '`' && from + 1 + run_len(s, from + 1, CharClass::PathBody)
        < s.len() {
        let close = from + 1 + run_len(s, from + 1, CharClass::PathBody);
        Some((ExpressionView::PathSegment(s.subrange(from + 1, close)), close + 1))
    } else {
        None
    }
}

/// A term at `from`: the longest run of characters that are not delimiters.
pub open spec fn term_at(s: Seq<char>, from: int) -> Option<(ExpressionView, int)> {
    if run_len(s, from, CharClass::Term) > 0 {
        let end = from + run_len(s, from, CharClass::Term);
        Some((ExpressionView::Term(s.subrange(from, end)), end))
    } else {
        None
    }
}

/// A delimiter at `from`: the longest run of delimiter characters.
pub open spec fn delimiter_at(s: Seq<char>, from: int) -> Option<(ExpressionView, int)> {
    if run_len(s, from, CharClass::Delimiter) > 0 {
        let end = from + run_len(s, from, CharClass::Delimiter);
        Some((ExpressionView::Delimiter(s.subrange(from, end)), end))
    } else {
        None
    }
}

/// The element that begins at `from`, and the position behind it.
pub open spec fn token_at(s: Seq<char>, from: int) -> (ExpressionView, int)
    recommends
        0 <= from < s.len(),
{
    if let Some(t) = noir_tag_at(s, from) {
        t
    } else if let Some(t) = string_literal_at(s, from) {
        t
    } else if let Some(t) = path_segment_at(s, from) {
        t
    } else if let Some(t) = term_at(s, from) {
        t
    } else if let Some(t) = delimiter_at(s, from) {
        t
    } else {
        (ExpressionView::Any(s[from]), from + 1)
    }
}

/// A single character at `from`, whatever it is.
pub open spec fn any_at(s: Seq<char>, from: int) -> Option<(ExpressionView, int)> {
    if 0 <= from < s.len() {
        Some((ExpressionView::Any(s[from]), from + 1))
    } else {
        None
    }
}

/// The elements of `s` from position `from` on.
pub open spec fn parse_from(s: Seq<char>, from: int) -> Seq<ExpressionView>
    decreases s.len() - from,
{
    if from < 0 || from >= s.len() {
        Seq::empty()
    } else {
        let (element, end) = token_at(s, from);
        if from < end <= s.len() {
            seq![element] + parse_from(s, end)
        } else {
            Seq::empty()
        }
    }
}

/// The elements of the query `s`.
pub open spec fn parse_spec(s: Seq<char>) -> Seq<ExpressionView> {
    parse_from(s, 0)
}

/// A run stays inside the text.
pub proof fn lemma_run_len_bounds(s: Seq<char>, from: int, class: CharClass)
    requires
        0 <= from <= s.len(),
    ensures
        0 <= run_len(s, from, class) <= s.len() - from,
        forall|i: int| from <= i < from + run_len(s, from, class) ==> in_class(class, #[trigger] s[i]),
        from + run_len(s, from, class) < s.len() ==> !in_class(
            class,
            s[from + run_len(s, from, class)],
        ),
    decreases s.len() - from,
{
    if from < s.len() && in_class(class, s[from]) {
        lemma_run_len_bounds(s, from + 1, class);
    }
}

/// The body of a quoted string ends inside the text, and where it ends before
/// the end of the text an apostrophe stands.
pub proof fn lemma_quoted_end_bounds(s: Seq<char>, from: int)
    requires
        0 <= from <= s.len(),
    ensures
        from <= quoted_end(s, from) <= s.len(),
        quoted_end(s, from) < s.len() ==> s[quoted_end(s, from)] == '\'',
    decreases s.len() - from,
{
    if from < s.len() {
        if s[from] != '\'' {
            lemma_quoted_end_bounds(s, from + 1);
        } else if from + 1 < s.len() && s[from + 1] == '\'' {
            lemma_quoted_end_bounds(s, from + 2);
        }
    }
}

/// Writing the body of a quoted string with its apostrophes doubled gives
/// back the text it was read from.
pub proof fn lemma_quoted_body_doubles_back(s: Seq<char>, from: int)
    requires
        0 <= from <= s.len(),
    ensures
        double_quotes(quoted_body(s, from)) == s.subrange(from, quoted_end(s, from)),
    decreases s.len() - from,
{
    lemma_quoted_end_bounds(s, from);
    if from < s.len() {
        if s[from] != '\'' {
            lemma_quoted_body_doubles_back(s, from + 1);
            lemma_quoted_end_bounds(s, from + 1);
            let body = quoted_body(s, from);
            assert(body.skip(1) =~= quoted_body(s, from + 1));
            assert(double_quotes(body) =~= s.subrange(from, quoted_end(s, from)));
        } else if from + 1 < s.len() && s[from + 1] == '\'' {
            lemma_quoted_body_doubles_back(s, from + 2);
            lemma_quoted_end_bounds(s, from + 2);
            let body = quoted_body(s, from);
            assert(body.skip(1) =~= quoted_body(s, from + 2));
            assert(double_quotes(body) =~= s.subrange(from, quoted_end(s, from)));
        } else {
            assert(double_quotes(quoted_body(s, from)) =~= s.subrange(from, quoted_end(s, from)));
        }
    } else {
        assert(double_quotes(quoted_body(s, from)) =~= s.subrange(from, quoted_end(s, from)));
    }
}

/// An element covers at least one character, ends inside the text, and is
/// written exactly as the text it was read from.
pub proof fn lemma_token_at(s: Seq<char>, from: int)
    requires
        0 <= from < s.len(),
    ensures
        from < token_at(s, from).1 <= s.len(),
        render_element(token_at(s, from).0) == s.subrange(from, token_at(s, from).1),
{
    lemma_run_len_bounds(s, from, CharClass::Term);
    lemma_run_len_bounds(s, from, CharClass::Delimiter);
    lemma_run_len_bounds(s, from + 1, CharClass::Tag);
    lemma_run_len_bounds(s, from + 1, CharClass::PathBody);
    lemma_quoted_end_bounds(s, from + 1);
    lemma_quoted_body_doubles_back(s, from + 1);
    let (element, end) = token_at(s, from);
    assert(render_element(element) =~= s.subrange(from, end));
}

/// Writing out goes through a concatenation.
pub proof fn lemma_render_concat(a: Seq<ExpressionView>, b: Seq<ExpressionView>)
    ensures
        render(a + b) == render(a) + render(b),
    decreases b.len(),
{
    if b.len() == 0 {
        assert(a + b =~= a);
        assert(render(a) + render(b) =~= render(a));
    } else {
        lemma_render_concat(a, b.drop_last());
        assert((a + b).drop_last() =~= a + b.drop_last());
        assert((a + b).last() == b.last());
        assert(render(a + b) =~= render(a) + render(b));
    }
}

/// The elements read from position `from` on, written out again, are the
/// text from `from` on.
pub proof fn lemma_parse_from_renders_back(s: Seq<char>, from: int)
    requires
        0 <= from <= s.len(),
    ensures
        render(parse_from(s, from)) == s.subrange(from, s.len() as int),
    decreases s.len() - from,
{
    if from < s.len() {
        lemma_token_at(s, from);
        let (element, end) = token_at(s, from);
        lemma_parse_from_renders_back(s, end);
        lemma_render_concat(seq![element], parse_from(s, end));
        let one = seq![element];
        assert(one.len() == 1 && one.last() == element);
        assert(one.drop_last() =~= Seq::<ExpressionView>::empty());
        assert(render(Seq::<ExpressionView>::empty()) =~= Seq::<char>::empty());
        assert(render(one) =~= render_element(element));
        assert(render(parse_from(s, from)) =~= s.subrange(from, s.len() as int));
    } else {
        assert(render(parse_from(s, from)) =~= s.subrange(from, s.len() as int));
    }
}

/// The tokeniser loses nothing: the elements of any text, written out again,
/// are that text.
pub proof fn lemma_parse_is_lossless(s: Seq<char>)
    ensures
        render(parse_spec(s)) == s,
{
    lemma_parse_from_renders_back(s, 0);
    assert(s.subrange(0, s.len() as int) =~= s);
}

/// `found` is the element `expected`, and ends where it ends.
pub open spec fn same_token(
    found: Option<(Expression, usize)>,
    expected: Option<(ExpressionView, int)>,
) -> bool {
    match expected {
        Some((element, end)) => found matches Some((e, at)) && e@ == element && at == end,
        None => found is None,
    }
}

/// `found` is the element `expected` together with the text of `s` behind it.
pub open spec fn same_cut(
    found: Option<(String, Expression)>,
    expected: Option<(ExpressionView, int)>,
    s: Seq<char>,
) -> bool {
    match expected {
        Some((element, end)) => found matches Some((rest, e)) && e@ == element && rest@
            == s.subrange(end, s.len() as int),
        None => found is None,
    }
}

fn is_delimiter_char(c: char) -> (b: bool)
    ensures
        b == is_delimiter(c),
{
    c == '\t' || c == ' ' || c == '\r' || c == '\n' || c == '(' || c == ')' || c == '<' || c == '>'
        || c == '='
}

fn class_holds(class: CharClass, c: char) -> (b: bool)
    ensures
        b == in_class(class, c),
{
    match class {
        CharClass::Delimiter => is_delimiter_char(c),
        CharClass::Term => !is_delimiter_char(c),
        CharClass::Tag => !is_delimiter_char(c) && c != '"',
        CharClass::PathBody => c != '`',
    }
}

/// The position behind the run of `class` that begins at `from`.
fn run_end(v: &Vec<char>, from: usize, class: CharClass) -> (end: usize)
    requires
        from <= v.len(),
    ensures
        end == from + run_len(v@, from as int, class),
        from <= end <= v.len(),
{
    let mut i: usize = from;
    while i < v.len() && class_holds(class, v[i])
        invariant
            from <= i <= v.len(),
            run_len(v@, from as int, class) == (i - from) + run_len(v@, i as int, class),
        decreases v.len() - i,
    {
        i += 1;
    }
    i
}

fn noir_tag_from(v: &Vec<char>, from: usize) -> (found: Option<(Expression, usize)>)
    requires
        from <= v.len(),
    ensures
        same_token(found, noir_tag_at(v@, from as int)),
        found matches Some((_, end)) ==> from < end <= v.len(),
{
    if from < v.len() && v[from] == '#' {
        let end = run_end(v, from + 1, CharClass::Tag);
        if end > from + 1 {
            return Some((Expression::NoirTag(string_of_range(v, from + 1, end)), end));
        }
    }
    None
}

fn string_literal_from(v: &Vec<char>, from: usize) -> (found: Option<(Expression, usize)>)
    requires
        from <= v.len(),
    ensures
        same_token(found, string_literal_at(v@, from as int)),
        found matches Some((_, end)) ==> from < end <= v.len(),
{
    if from >= v.len() || v[from] != '\'' {
        return None;
    }
    let mut body = String::new();
    let mut i: usize = from + 1;
    let mut closed = false;
    assert(body@ + quoted_body(v@, i as int) =~= quoted_body(v@, from + 1));
    while !closed && i < v.len()
        invariant
            from + 1 <= i <= v.len(),
            body@ + quoted_body(v@, i as int) == quoted_body(v@, from + 1),
            quoted_end(v@, i as int) == quoted_end(v@, from + 1),
            closed ==> i < v.len() && quoted_end(v@, i as int) == i && quoted_body(v@, i as int)
                == Seq::<char>::empty(),
        decreases (if closed { 0int } else { 1int }), v.len() - i,
    {
        let c = v[i];
        if c != '\'' {
            let ghost before = body@;
            push_char(&mut body, c);
            assert(body@ + quoted_body(v@, i + 1) =~= before + quoted_body(v@, i as int));
            i += 1;
        } else if i + 1 < v.len() && v[i + 1] == '\'' {
            let ghost before = body@;
            push_char(&mut body, '\'');
            assert(body@ + quoted_body(v@, i + 2) =~= before + quoted_body(v@, i as int));
            i += 2;
        } else {
            closed = true;
        }
    }
    if i < v.len() {
        assert(body@ =~= quoted_body(v@, from + 1));
        Some((Expression::StringLiteral(body), i + 1))
    } else {
        None
    }
}

fn path_segment_from(v: &Vec<char>, from: usize) -> (found: Option<(Expression, usize)>)
    requires
        from <= v.len(),
    ensures
        same_token(found, path_segment_at(v@, from as int)),
        found matches Some((_, end)) ==> from < end <= v.len(),
{
    if from < v.len() && v[from] == '`' {
        let close = run_end(v, from + 1, CharClass::PathBody);
        if close < v.len() {
            return Some((Expression::PathSegment(string_of_range(v, from + 1, close)), close + 1));
        }
    }
    None
}

fn term_from(v: &Vec<char>, from: usize) -> (found: Option<(Expression, usize)>)
    requires
        from <= v.len(),
    ensures
        same_token(found, term_at(v@, from as int)),
        found matches Some((_, end)) ==> from < end <= v.len(),
{
    let end = run_end(v, from, CharClass::Term);
    if end > from {
        Some((Expression::Term(string_of_range(v, from, end)), end))
    } else {
        None
    }
}

fn delimiter_from(v: &Vec<char>, from: usize) -> (found: Option<(Expression, usize)>)
    requires
        from <= v.len(),
    ensures
        same_token(found, delimiter_at(v@, from as int)),
        found matches Some((_, end)) ==> from < end <= v.len(),
{
    let end = run_end(v, from, CharClass::Delimiter);
    if end > from {
        Some((Expression::Delimiter(string_of_range(v, from, end)), end))
    } else {
        None
    }
}

fn any_from(v: &Vec<char>, from: usize) -> (found: Option<(Expression, usize)>)
    requires
        from <= v.len(),
    ensures
        same_token(found, any_at(v@, from as int)),
        found matches Some((_, end)) ==> from < end <= v.len(),
{
    if from < v.len() {
        Some((Expression::Any(v[from]), from + 1))
    } else {
        None
    }
}

/// The element at `from`, by the first rule that applies.
fn token_from(v: &Vec<char>, from: usize) -> (found: (Expression, usize))
    requires
        from < v.len(),
    ensures
        found.0@ == token_at(v@, from as int).0,
        found.1 == token_at(v@, from as int).1,
        from < found.1 <= v.len(),
{
    proof {
        lemma_token_at(v@, from as int);
    }
    if let Some(t) = noir_tag_from(v, from) {
        return t;
    }
    if let Some(t) = string_literal_from(v, from) {
        return t;
    }
    if let Some(t) = path_segment_from(v, from) {
        return t;
    }
    if let Some(t) = term_from(v, from) {
        return t;
    }
    if let Some(t) = delimiter_from(v, from) {
        return t;
    }
    (Expression::Any(v[from]), from + 1)
}

/// Puts the text behind an element beside it.
fn cut(v: &Vec<char>, found: Option<(Expression, usize)>) -> (result: Option<(String, Expression)>)
    requires
        found matches Some((_, end)) ==> end <= v.len(),
    ensures
        match found {
            Some((e, end)) => result matches Some((rest, f)) && f == e && rest@ == v@.subrange(
                end as int,
                v.len() as int,
            ),
            None => result is None,
        },
{
    match found {
        Some((e, end)) => Some((string_of_range(v, end, v.len()), e)),
        None => None,
    }
}

/// Reads a tag from the start of `input`: `#` and the longest run of tag
/// characters, at least one. Returns the rest of the input and the element.
pub fn noir_tag(input: &str) -> (found: Option<(String, Expression)>)
    ensures
        same_cut(found, noir_tag_at(input@, 0), input@),
{
    let v = chars_of(input);
    cut(&v, noir_tag_from(&v, 0))
}

/// Reads a quoted string from the start of `input`. Inside it `''` stands for
/// one apostrophe. Returns the rest of the input and the element.
pub fn string_literal(input: &str) -> (found: Option<(String, Expression)>)
    ensures
        same_cut(found, string_literal_at(input@, 0), input@),
{
    let v = chars_of(input);
    cut(&v, string_literal_from(&v, 0))
}

/// Reads a backtick-delimited path fragment from the start of `input`.
/// Returns the rest of the input and the element.
pub fn path_segment(input: &str) -> (found: Option<(String, Expression)>)
    ensures
        same_cut(found, path_segment_at(input@, 0), input@),
{
    let v = chars_of(input);
    cut(&v, path_segment_from(&v, 0))
}

/// Reads a term from the start of `input`: the longest run of characters
/// that are not delimiters, at least one. Returns the rest of the input and
/// the element.
pub fn term(input: &str) -> (found: Option<(String, Expression)>)
    ensures
        same_cut(found, term_at(input@, 0), input@),
{
    let v = chars_of(input);
    cut(&v, term_from(&v, 0))
}

/// Reads the longest run of delimiters from the start of `input`, at least
/// one. Returns the rest of the input and the element.
pub fn delimiter(input: &str) -> (found: Option<(String, Expression)>)
    ensures
        same_cut(found, delimiter_at(input@, 0), input@),
{
    let v = chars_of(input);
    cut(&v, delimiter_from(&v, 0))
}

/// Reads one character from the start of `input`. Returns the rest of the
/// input and the element.
pub fn any(input: &str) -> (found: Option<(String, Expression)>)
    ensures
        same_cut(found, any_at(input@, 0), input@),
{
    let v = chars_of(input);
    cut(&v, any_from(&v, 0))
}

/// Cuts the characters `v` into elements.
pub fn parse_chars(v: &Vec<char>) -> (query: NoirQuery)
    ensures
        query@ == parse_spec(v@),
{
    let mut elements: Vec<Expression> = Vec::new();
    let mut i: usize = 0;
    assert(element_views(elements@) + parse_from(v@, 0) =~= parse_from(v@, 0));
    while i < v.len()
        invariant
            i <= v.len(),
            element_views(elements@) + parse_from(v@, i as int) == parse_from(v@, 0),
        decreases v.len() - i,
    {
        let ghost before = elements@;
        let (element, end) = token_from(v, i);
        elements.push(element);
        assert(element_views(elements@) + parse_from(v@, end as int) =~= element_views(before)
            + parse_from(v@, i as int));
        i = end;
    }
    assert(element_views(elements@) + parse_from(v@, i as int) =~= element_views(elements@));
    NoirQuery { elements }
}

/// Cuts a query into its elements. Every input is a query: this never fails,
/// and the elements written out again are the input.
pub fn parse(input: &str) -> (result: AppResult<NoirQuery>)
    ensures
        result matches Ok(query) && query@ == parse_spec(input@) && render(query@) == input@,
{
    let v = chars_of(input);
    proof {
        lemma_parse_is_lossless(input@);
    }
    Ok(parse_chars(&v))
}

} // verus!
