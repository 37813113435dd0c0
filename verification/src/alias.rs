//! Aliases: names that stand for an expression of the search language, and
//! tables of them in which no name occurs twice.

use vstd::prelude::*;

verus! {

/// What a name stands for.
#[derive(Clone, Debug, Default, PartialEq, Eq)]
pub struct Alias {
    /// The replacement text.
    pub expression: String,
    /// Whether the replacement is itself expanded.
    pub recursive: bool,
}

/// What an [`Alias`] holds, as mathematical values.
pub struct AliasView {
    pub expression: Seq<char>,
    pub recursive: bool,
}

impl View for Alias {
    type V = AliasView;

    open spec fn view(&self) -> AliasView {
        AliasView { expression: self.expression@, recursive: self.recursive }
    }
}

impl Alias {
    /// A copy of the alias.
    pub fn duplicate(&self) -> (copy: Alias)
        ensures
            copy@ == self@,
    {
        Alias { expression: self.expression.clone(), recursive: self.recursive }
    }
}

/// A table of aliases as a mathematical map from names.
pub type AliasMap = Map<Seq<char>, AliasView>;

/// A list of named aliases, as mathematical values.
pub type Entries = Seq<(Seq<char>, AliasView)>;

/// The views of a list of named aliases.
pub open spec fn entry_views(entries: Seq<(String, Alias)>) -> Entries {
    Seq::new(entries.len(), |i: int| (entries[i].0@, entries[i].1@))
}

/// The table made by inserting the entries one after another: of two entries
/// with one name the later one stays.
pub open spec fn table_of(entries: Entries) -> AliasMap
    decreases entries.len(),
{
    if entries.len() == 0 {
        Map::empty()
    } else {
        table_of(entries.drop_last()).insert(entries.last().0, entries.last().1)
    }
}

/// No name occurs in two entries.
pub open spec fn distinct_names(entries: Entries) -> bool {
    forall|i: int, j: int| 0 <= i < j < entries.len() ==> entries[i].0 != entries[j].0
}

/// A name is in the table exactly when an entry has it.
pub proof fn lemma_table_names(entries: Entries, name: Seq<char>)
    ensures
        table_of(entries).contains_key(name) <==> exists|i: int|
            0 <= i < entries.len() && (#[trigger] entries[i]).0 == name,
    decreases entries.len(),
{
    if entries.len() > 0 {
        let front = entries.drop_last();
        lemma_table_names(front, name);
        if table_of(entries).contains_key(name) {
            if entries.last().0 == name {
                assert(entries[entries.len() - 1].0 == name);
            } else {
                let i = choose|i: int| 0 <= i < front.len() && (#[trigger] front[i]).0 == name;
                assert(entries[i].0 == name);
            }
        }
        if exists|i: int| 0 <= i < entries.len() && (#[trigger] entries[i]).0 == name {
            let i = choose|i: int| 0 <= i < entries.len() && (#[trigger] entries[i]).0 == name;
            if i < entries.len() - 1 {
                assert(front[i].0 == name);
            }
        }
    }
}

/// Where no name occurs twice, the table gives each entry's name its alias.
pub proof fn lemma_table_lookup(entries: Entries, i: int)
    requires
        distinct_names(entries),
        0 <= i < entries.len(),
    ensures
        table_of(entries).contains_key(entries[i].0),
        table_of(entries)[entries[i].0] == entries[i].1,
    decreases entries.len(),
{
    let front = entries.drop_last();
    if i < entries.len() - 1 {
        assert(distinct_names(front)) by {
            assert forall|a: int, b: int| 0 <= a < b < front.len() implies front[a].0
                != front[b].0 by {
                assert(entries[a].0 != entries[b].0);
            }
        }
        lemma_table_lookup(front, i);
        assert(front[i] == entries[i]);
        assert(entries[i].0 != entries[entries.len() - 1].0);
    }
}

/// Appending an entry inserts it.
pub proof fn lemma_table_push(entries: Entries, name: Seq<char>, alias: AliasView)
    ensures
        table_of(entries.push((name, alias))) == table_of(entries).insert(name, alias),
{
    assert(entries.push((name, alias)).drop_last() =~= entries);
}

/// Where no name occurs twice, giving an entry a new alias inserts it under
/// the entry's name.
pub proof fn lemma_table_update(entries: Entries, i: int, alias: AliasView)
    requires
        distinct_names(entries),
        0 <= i < entries.len(),
    ensures
        table_of(entries.update(i, (entries[i].0, alias))) == table_of(entries).insert(
            entries[i].0,
            alias,
        ),
        distinct_names(entries.update(i, (entries[i].0, alias))),
    decreases entries.len(),
{
    let name = entries[i].0;
    let updated = entries.update(i, (name, alias));
    let front = entries.drop_last();
    assert(distinct_names(front)) by {
        assert forall|a: int, b: int| 0 <= a < b < front.len() implies front[a].0 != front[b].0 by {
            assert(entries[a].0 != entries[b].0);
        }
    }
    if i == entries.len() - 1 {
        assert(updated.drop_last() =~= front);
        assert(table_of(updated) =~= table_of(entries).insert(name, alias));
    } else {
        lemma_table_update(front, i, alias);
        assert(front[i] == entries[i]);
        assert(updated.drop_last() =~= front.update(i, (name, alias)));
        assert(entries[i].0 != entries[entries.len() - 1].0);
        assert(table_of(updated) =~= table_of(entries).insert(name, alias));
    }
}

/// Where no name occurs twice, taking an entry out removes its name.
pub proof fn lemma_table_remove(entries: Entries, i: int)
    requires
        distinct_names(entries),
        0 <= i < entries.len(),
    ensures
        table_of(entries.remove(i)) == table_of(entries).remove(entries[i].0),
        distinct_names(entries.remove(i)),
    decreases entries.len(),
{
    let name = entries[i].0;
    let removed = entries.remove(i);
    let front = entries.drop_last();
    assert(distinct_names(front)) by {
        assert forall|a: int, b: int| 0 <= a < b < front.len() implies front[a].0 != front[b].0 by {
            assert(entries[a].0 != entries[b].0);
        }
    }
    assert(distinct_names(removed)) by {
        assert forall|a: int, b: int| 0 <= a < b < removed.len() implies removed[a].0
            != removed[b].0 by {
            let a2 = if a < i { a } else { a + 1 };
            let b2 = if b < i { b } else { b + 1 };
            assert(entries[a2].0 != entries[b2].0);
        }
    }
    if i == entries.len() - 1 {
        assert(removed =~= front);
        lemma_table_names(front, name);
        assert(!table_of(front).contains_key(name)) by {
            if table_of(front).contains_key(name) {
                let k = choose|k: int| 0 <= k < front.len() && (#[trigger] front[k]).0 == name;
                assert(entries[k].0 != entries[i].0);
            }
        }
        assert(table_of(removed) =~= table_of(entries).remove(name));
    } else {
        lemma_table_remove(front, i);
        assert(front[i] == entries[i]);
        assert(removed.drop_last() =~= front.remove(i));
        assert(removed.last() == entries.last());
        assert(entries[i].0 != entries[entries.len() - 1].0);
        assert(table_of(removed) =~= table_of(entries).remove(name));
    }
}

/// The position of the first entry named `name`, if there is one.
pub fn find_name(entries: &Vec<(String, Alias)>, name: &str) -> (found: Option<usize>)
    ensures
        match found {
            Some(i) => i < entries.len() && entries[i as int].0@ == name@ && forall|k: int|
                0 <= k < i ==> (#[trigger] entries[k]).0@ != name@,
            None => forall|i: int| 0 <= i < entries.len() ==> (#[trigger] entries[i]).0@ != name@,
        },
{
    let wanted = name.to_owned();
    let mut i: usize = 0;
    while i < entries.len()
        invariant
            i <= entries.len(),
            wanted@ == name@,
            forall|k: int| 0 <= k < i ==> (#[trigger] entries[k]).0@ != name@,
        decreases entries.len() - i,
    {
        if entries[i].0 == wanted {
            return Some(i);
        }
        i += 1;
    }
    None
}

/// Puts `alias` under `name`: in the place of the entry of that name, or
/// behind the others where there is none.
pub fn put_alias(entries: &mut Vec<(String, Alias)>, name: String, alias: Alias)
    requires
        distinct_names(entry_views(old(entries)@)),
    ensures
        distinct_names(entry_views(final(entries)@)),
        table_of(entry_views(final(entries)@)) == table_of(entry_views(old(entries)@)).insert(
            name@,
            alias@,
        ),
{
    let ghost before = entry_views(entries@);
    match find_name(entries, name.as_str()) {
        Some(i) => {
            proof {
                lemma_table_update(before, i as int, alias@);
            }
            entries.set(i, (name, alias));
            assert(entry_views(entries@) =~= before.update(i as int, (before[i as int].0, alias@)));
        },
        None => {
            proof {
                lemma_table_push(before, name@, alias@);
            }
            entries.push((name, alias));
            assert(entry_views(entries@) =~= before.push((name@, alias@)));
            assert(distinct_names(entry_views(entries@))) by {
                let after = entry_views(entries@);
                assert forall|a: int, b: int| 0 <= a < b < after.len() implies after[a].0
                    != after[b].0 by {
                    if b == after.len() - 1 {
                        assert(old(entries)@[a].0@ != name@);
                    } else {
                        assert(before[a].0 != before[b].0);
                    }
                }
            }
        },
    }
}

/// A copy of the entries.
pub fn duplicate_entries(entries: &Vec<(String, Alias)>) -> (copy: Vec<(String, Alias)>)
    ensures
        entry_views(copy@) == entry_views(entries@),
{
    let mut copy: Vec<(String, Alias)> = Vec::new();
    let mut i: usize = 0;
    while i < entries.len()
        invariant
            i <= entries.len(),
            copy.len() == i,
            forall|k: int|
                0 <= k < i ==> (#[trigger] copy[k]).0@ == entries[k].0@ && copy[k].1@
                    == entries[k].1@,
        decreases entries.len() - i,
    {
        copy.push((entries[i].0.clone(), entries[i].1.duplicate()));
        i += 1;
    }
    assert(entry_views(copy@) =~= entry_views(entries@));
    copy
}

} // verus!
