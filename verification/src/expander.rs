//! Turning a query of the search language into the SQL condition it stands
//! for: aliases are replaced, tags and path fragments become conditions.

use vstd::prelude::*;
use crate::alias::{
    distinct_names, duplicate_entries, entry_views, find_name, lemma_table_lookup,
    lemma_table_names, put_alias, table_of, Alias, AliasMap,
};
use crate::global_alias::GlobalAliasTable;
use crate::errors::{AppError, AppResult};
use crate::expression::parser::{parse_chars, parse_spec};
use crate::expression::{
    literal_text, push_literal, Expression, ExpressionView, NoirQuery, RawQuery,
};
use crate::text::{chars_of, push_char};

verus! {

/// How deep aliases may call each other.
pub const MAX_DEPTH: usize = 30;

/// The condition that selects the images bearing the tag `tag`.
pub open spec fn tag_condition(tag: Seq<char>) -> Seq<char> {
    "(path in (SELECT path FROM tags WHERE tag = "@ + literal_text(tag) + "))"@
}

/// The condition that selects the images whose path holds `fragment`.
pub open spec fn path_condition(fragment: Seq<char>) -> Seq<char> {
    "(path like "@ + literal_text(seq!['%'] + fragment + seq!['%']) + ")"@
}

/// What one element expands to at depth `depth`; `None` where aliases call
/// each other deeper than [`MAX_DEPTH`].
pub open spec fn expand_element(aliases: AliasMap, element: ExpressionView, depth: nat) -> Option<
    Seq<char>,
>
    decreases 31 - depth, 0nat,
{
    if depth > 30 {
        None
    } else {
        match element {
            ExpressionView::Any(c) => Some(seq![c]),
            ExpressionView::Delimiter(s) => Some(s),
            ExpressionView::NoirTag(tag) => Some(tag_condition(tag)),
            ExpressionView::PathSegment(fragment) => Some(path_condition(fragment)),
            ExpressionView::StringLiteral(s) => Some(literal_text(s)),
            ExpressionView::Term(word) => if aliases.contains_key(word) {
                if aliases[word].recursive {
                    expand_spec(aliases, parse_spec(aliases[word].expression), depth + 1)
                } else {
                    Some(aliases[word].expression)
                }
            } else {
                Some(word)
            },
        }
    }
}

/// What a sequence of elements expands to at depth `depth`: the expansions of
/// its elements one after another. `None` where `depth` is above
/// [`MAX_DEPTH`] or an element's expansion is `None`.
pub open spec fn expand_spec(aliases: AliasMap, elements: Seq<ExpressionView>, depth: nat) -> Option<
    Seq<char>,
>
    decreases 31 - depth, elements.len() + 1,
{
    if depth > 30 {
        None
    } else if elements.len() == 0 {
        Some(Seq::empty())
    } else {
        match expand_spec(aliases, elements.drop_last(), depth) {
            Some(front) => match expand_element(aliases, elements.last(), depth) {
                Some(text) => Some(front + text),
                None => None,
            },
            None => None,
        }
    }
}

/// The message of the error for aliases nested too deep.
pub open spec fn too_deep_message() -> Seq<char> {
    "Too deep recursively alias"@
}

/// `result` is the expansion `expected`, or the error for a missing one.
pub open spec fn same_expansion(result: AppResult<RawQuery>, expected: Option<Seq<char>>) -> bool {
    match expected {
        Some(text) => result matches Ok(query) && query@ == text,
        None => result matches Err(AppError::Standard(message)) && message@ == too_deep_message(),
    }
}

/// Where the expansion of the first `k` elements fails, so does that of all.
pub proof fn lemma_expansion_fails_with_prefix(
    aliases: AliasMap,
    elements: Seq<ExpressionView>,
    k: int,
    depth: nat,
)
    requires
        0 <= k <= elements.len(),
        expand_spec(aliases, elements.take(k), depth) is None,
    ensures
        expand_spec(aliases, elements, depth) is None,
    decreases elements.len() - k,
{
    if k == elements.len() {
        assert(elements.take(k) =~= elements);
    } else if depth <= 30 {
        assert(elements.drop_last().take(k) =~= elements.take(k));
        lemma_expansion_fails_with_prefix(aliases, elements.drop_last(), k, depth);
    }
}

/// An alias that stands for itself and is expanded again is refused at
/// every depth: aliases that call each other in a circle end in the error
/// for too deep a nesting, never in a loop.
pub proof fn lemma_circular_alias_is_refused(aliases: AliasMap, word: Seq<char>, depth: nat)
    requires
        aliases.contains_key(word),
        aliases[word].recursive,
        parse_spec(aliases[word].expression) == seq![ExpressionView::Term(word)],
    ensures
        expand_spec(aliases, seq![ExpressionView::Term(word)], depth) is None,
    decreases 31 - depth,
{
    let elements = seq![ExpressionView::Term(word)];
    if depth <= 30 {
        lemma_circular_alias_is_refused(aliases, word, depth + 1);
        assert(elements.last() == ExpressionView::Term(word));
        assert(expand_element(aliases, elements.last(), depth) is None);
    }
}

/// Where no alias is expanded again, every query has an expansion at every
/// depth up to [`MAX_DEPTH`].
pub proof fn lemma_plain_aliases_never_fail(
    aliases: AliasMap,
    elements: Seq<ExpressionView>,
    depth: nat,
)
    requires
        depth <= MAX_DEPTH,
        forall|name: Seq<char>| #[trigger] aliases.contains_key(name) ==> !aliases[name].recursive,
    ensures
        expand_spec(aliases, elements, depth) is Some,
    decreases elements.len(),
{
    if elements.len() > 0 {
        lemma_plain_aliases_never_fail(aliases, elements.drop_last(), depth);
        assert(expand_element(aliases, elements.last(), depth) is Some);
    }
}

/// Nothing is ever expanded deeper than [`MAX_DEPTH`].
pub proof fn lemma_depth_is_bounded(aliases: AliasMap, elements: Seq<ExpressionView>, depth: nat)
    requires
        depth > MAX_DEPTH,
    ensures
        expand_spec(aliases, elements, depth) is None,
{
}

/// Expands queries with a fixed table of aliases.
pub struct Expander {
    aliases: Vec<(String, Alias)>,
}

impl View for Expander {
    type V = AliasMap;

    closed spec fn view(&self) -> AliasMap {
        table_of(entry_views(self.aliases@))
    }
}

impl Expander {
    #[verifier::type_invariant]
    spec fn names_are_distinct(self) -> bool {
        distinct_names(entry_views(self.aliases@))
    }

    /// The expander whose aliases are those of `global` overlaid with those
    /// of `local`: where both define a name, `local` decides. Within one list
    /// a later entry replaces an earlier one of the same name.
    pub fn new(local: Vec<(String, Alias)>, global: Vec<(String, Alias)>) -> (expander: Self)
        ensures
            expander@ == table_of(entry_views(global@)).union_prefer_right(
                table_of(entry_views(local@)),
            ),
    {
        let mut aliases: Vec<(String, Alias)> = Vec::new();
        let ghost global_entries = entry_views(global@);
        let ghost local_entries = entry_views(local@);
        let mut i: usize = 0;
        assert(global_entries.take(0) =~= Seq::empty());
        while i < global.len()
            invariant
                i <= global.len(),
                global_entries == entry_views(global@),
                distinct_names(entry_views(aliases@)),
                table_of(entry_views(aliases@)) == table_of(global_entries.take(i as int)),
            decreases global.len() - i,
        {
            put_alias(&mut aliases, global[i].0.clone(), global[i].1.duplicate());
            assert(global_entries.take(i + 1).drop_last() =~= global_entries.take(i as int));
            i += 1;
        }
        assert(global_entries.take(global.len() as int) =~= global_entries);
        let mut j: usize = 0;
        assert(local_entries.take(0) =~= Seq::empty());
        assert(table_of(global_entries).union_prefer_right(table_of(local_entries.take(0)))
            =~= table_of(global_entries));
        while j < local.len()
            invariant
                j <= local.len(),
                local_entries == entry_views(local@),
                distinct_names(entry_views(aliases@)),
                table_of(entry_views(aliases@)) == table_of(global_entries).union_prefer_right(
                    table_of(local_entries.take(j as int)),
                ),
            decreases local.len() - j,
        {
            put_alias(&mut aliases, local[j].0.clone(), local[j].1.duplicate());
            assert(local_entries.take(j + 1).drop_last() =~= local_entries.take(j as int));
            assert(table_of(entry_views(aliases@)) =~= table_of(global_entries).union_prefer_right(
                table_of(local_entries.take(j + 1)),
            ));
            j += 1;
        }
        assert(local_entries.take(local.len() as int) =~= local_entries);
        Expander { aliases }
    }

    /// The expander for a catalog: the global aliases overlaid with `local`,
    /// the catalog's own.
    pub fn generate(local: Vec<(String, Alias)>, global_alias_table: &GlobalAliasTable) -> (expander:
        Self)
        ensures
            expander@ == global_alias_table@.union_prefer_right(table_of(entry_views(local@))),
    {
        let global = duplicate_entries(global_alias_table.entries());
        Self::new(local, global)
    }

    /// The alias that `name` stands for, if it is defined.
    pub fn get_alias(&self, name: &str) -> (alias: Option<&Alias>)
        ensures
            match alias {
                Some(a) => self@.contains_key(name@) && a@ == self@[name@],
                None => !self@.contains_key(name@),
            },
    {
        proof {
            use_type_invariant(self);
            lemma_table_names(entry_views(self.aliases@), name@);
        }
        match find_name(&self.aliases, name) {
            Some(i) => {
                proof {
                    lemma_table_lookup(entry_views(self.aliases@), i as int);
                }
                Some(&self.aliases[i].1)
            },
            None => {
                assert forall|i: int| 0 <= i < self.aliases@.len() implies (#[trigger] entry_views(
                    self.aliases@,
                )[i]).0 != name@ by {
                    assert(self.aliases@[i].0@ != name@);
                }
                None
            },
        }
    }

    /// The names that are defined, each once.
    pub fn get_alias_names(&self) -> (names: Vec<&str>)
        ensures
            forall|i: int, j: int| 0 <= i < j < names.len() ==> names[i]@ != names[j]@,
            forall|i: int| 0 <= i < names.len() ==> self@.contains_key(#[trigger] names[i]@),
            forall|name: Seq<char>| #[trigger]
                self@.contains_key(name) ==> exists|i: int|
                    0 <= i < names.len() && #[trigger] names[i]@ == name,
    {
        proof {
            use_type_invariant(self);
        }
        let ghost entries = entry_views(self.aliases@);
        let mut names: Vec<&str> = Vec::new();
        let mut i: usize = 0;
        while i < self.aliases.len()
            invariant
                i <= self.aliases.len(),
                names.len() == i,
                forall|k: int| 0 <= k < i ==> (#[trigger] names[k])@ == self.aliases@[k].0@,
            decreases self.aliases.len() - i,
        {
            names.push(self.aliases[i].0.as_str());
            i += 1;
        }
        proof {
            assert forall|a: int, b: int| 0 <= a < b < names.len() implies names[a]@
                != names[b]@ by {
                assert(entries[a].0 != entries[b].0);
            }
            assert forall|k: int| 0 <= k < names.len() implies self@.contains_key(
                #[trigger] names[k]@,
            ) by {
                lemma_table_lookup(entries, k);
            }
            assert forall|name: Seq<char>| #[trigger] self@.contains_key(name) implies exists|
                k: int,
            |
                0 <= k < names.len() && #[trigger] names[k]@ == name by {
                lemma_table_names(entries, name);
                let k = choose|k: int| 0 <= k < entries.len() && (#[trigger] entries[k]).0 == name;
                assert(names[k]@ == name);
            }
        }
        names
    }

    /// Expands the query written in `expression`.
    pub fn expand_str(&self, expression: &str) -> (result: AppResult<RawQuery>)
        ensures
            same_expansion(result, expand_spec(self@, parse_spec(expression@), 0)),
    {
        let query = parse_chars(&chars_of(expression));
        self.expand(&query)
    }

    /// Expands `query`: each element becomes SQL text, aliases are replaced
    /// by what they stand for. Fails where aliases call each other deeper
    /// than [`MAX_DEPTH`].
    pub fn expand(&self, query: &NoirQuery) -> (result: AppResult<RawQuery>)
        ensures
            same_expansion(result, expand_spec(self@, query@, 0)),
    {
        self.expand_n(query, 0)
    }

    /// Expands `query` at depth `n`.
    pub fn expand_n(&self, query: &NoirQuery, n: usize) -> (result: AppResult<RawQuery>)
        ensures
            same_expansion(result, expand_spec(self@, query@, n as nat)),
        decreases 31 - n,
    {
        if MAX_DEPTH < n {
            return Err(AppError::Standard("Too deep recursively alias".to_owned()));
        }
        let ghost aliases = self@;
        let ghost elements = query@;
        let mut result = String::new();
        let mut i: usize = 0;
        assert(elements.take(0) =~= Seq::empty());
        while i < query.elements.len()
            invariant
                n <= MAX_DEPTH,
                i <= query.elements.len(),
                aliases == self@,
                elements == query@,
                expand_spec(aliases, elements.take(i as int), n as nat) == Some(result@),
            decreases query.elements.len() - i,
        {
            let ghost before = result@;
            let ghost next = elements.take(i + 1);
            assert(next.drop_last() =~= elements.take(i as int));
            assert(next.last() == query.elements@[i as int]@);
            let ghost element = next.last();
            let ghost depth = n as nat;
            assert(expand_spec(aliases, next, depth) == match expand_element(
                aliases,
                element,
                depth,
            ) {
                Some(text) => Some(before + text),
                None => None,
            });
            match &query.elements[i] {
                Expression::Any(c) => {
                    push_char(&mut result, *c);
                    assert(expand_element(aliases, element, depth) == Some(seq![*c]));
                    assert(result@ =~= before + seq![*c]);
                },
                Expression::Delimiter(s) => {
                    result.append(s.as_str());
                    assert(expand_element(aliases, element, depth) == Some(s@));
                },
                Expression::NoirTag(tag) => {
                    result.append("(path in (SELECT path FROM tags WHERE tag = ");
                    push_literal(&mut result, &chars_of(tag.as_str()));
                    result.append("))");
                    assert(expand_element(aliases, element, depth) == Some(tag_condition(tag@)));
                    assert(result@ =~= before + tag_condition(tag@));
                },
                Expression::PathSegment(fragment) => {
                    let mut pattern = chars_of(fragment.as_str());
                    pattern.insert(0, '%');
                    pattern.push('%');
                    assert(pattern@ =~= seq!['%'] + fragment@ + seq!['%']);
                    result.append("(path like ");
                    push_literal(&mut result, &pattern);
                    result.append(")");
                    assert(expand_element(aliases, element, depth) == Some(
                        path_condition(fragment@),
                    ));
                    assert(result@ =~= before + path_condition(fragment@));
                },
                Expression::StringLiteral(s) => {
                    push_literal(&mut result, &chars_of(s.as_str()));
                    assert(expand_element(aliases, element, depth) == Some(literal_text(s@)));
                },
                Expression::Term(word) => {
                    match self.get_alias(word.as_str()) {
                        Some(alias) => {
                            if alias.recursive {
                                let inner = parse_chars(&chars_of(alias.expression.as_str()));
                                assert(expand_element(aliases, element, depth) == expand_spec(
                                    aliases,
                                    inner@,
                                    depth + 1,
                                ));
                                match self.expand_n(&inner, n + 1) {
                                    Ok(expanded) => {
                                        result.append(expanded.as_ref());
                                    },
                                    Err(error) => {
                                        proof {
                                            lemma_expansion_fails_with_prefix(
                                                aliases,
                                                elements,
                                                i + 1,
                                                n as nat,
                                            );
                                        }
                                        return Err(error);
                                    },
                                }
                            } else {
                                result.append(alias.expression.as_str());
                                assert(expand_element(aliases, element, depth) == Some(
                                    alias.expression@,
                                ));
                            }
                        },
                        None => {
                            result.append(word.as_str());
                            assert(expand_element(aliases, element, depth) == Some(word@));
                        },
                    }
                },
            }
            i += 1;
        }
        assert(elements.take(query.elements.len() as int) =~= elements);
        Ok(RawQuery::new(result))
    }
}

} // verus!
