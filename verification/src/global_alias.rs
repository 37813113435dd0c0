//! The table of aliases that is kept in a file of its own and holds for
//! every catalog.

use vstd::prelude::*;
use crate::alias::{
    distinct_names, entry_views, find_name, lemma_table_lookup, lemma_table_names,
    lemma_table_remove, put_alias, table_of, Alias, AliasMap,
};
use crate::text::chars_of;

verus! {

/// `a` stands before `b` in the dictionary, or is `b`: at the first place
/// where they differ `a` has the smaller character, or `a` ends there.
pub open spec fn text_le(a: Seq<char>, b: Seq<char>) -> bool
    decreases a.len(),
{
    if a.len() == 0 {
        true
    } else if b.len() == 0 {
        false
    } else if a[0] != b[0] {
        a[0] < b[0]
    } else {
        text_le(a.skip(1), b.skip(1))
    }
}

/// Each text stands before the next, or is the next.
pub open spec fn sorted(names: Seq<Seq<char>>) -> bool {
    forall|i: int, j: int| 0 <= i < j < names.len() ==> text_le(names[i], names[j])
}

/// Of two texts one stands before the other.
pub proof fn lemma_text_le_total(a: Seq<char>, b: Seq<char>)
    ensures
        text_le(a, b) || text_le(b, a),
    decreases a.len(),
{
    if a.len() > 0 && b.len() > 0 && a[0] == b[0] {
        lemma_text_le_total(a.skip(1), b.skip(1));
    }
}

/// The order of the dictionary goes on: from `a` to `b` to `c`.
pub proof fn lemma_text_le_transitive(a: Seq<char>, b: Seq<char>, c: Seq<char>)
    requires
        text_le(a, b),
        text_le(b, c),
    ensures
        text_le(a, c),
    decreases a.len(),
{
    if a.len() > 0 && b.len() > 0 && c.len() > 0 && a[0] == b[0] && b[0] == c[0] {
        lemma_text_le_transitive(a.skip(1), b.skip(1), c.skip(1));
    }
}

/// `e` is one of the numbers in `origin`.
pub open spec fn occurs(origin: Seq<int>, e: int) -> bool {
    exists|k: int| 0 <= k < origin.len() && #[trigger] origin[k] == e
}

/// Whether `a` stands before `b` in the dictionary, or is `b`.
pub fn text_before(a: &str, b: &str) -> (before: bool)
    ensures
        before == text_le(a@, b@),
{
    let x = chars_of(a);
    let y = chars_of(b);
    let mut i: usize = 0;
    assert(x@.skip(0) =~= x@ && y@.skip(0) =~= y@);
    while i < x.len() && i < y.len()
        invariant
            i <= x.len(),
            i <= y.len(),
            x@ == a@,
            y@ == b@,
            text_le(a@, b@) == text_le(x@.skip(i as int), y@.skip(i as int)),
        decreases x.len() - i,
    {
        assert(x@.skip(i as int)[0] == x@[i as int]);
        assert(y@.skip(i as int)[0] == y@[i as int]);
        assert(x@.skip(i as int).skip(1) =~= x@.skip(i + 1));
        assert(y@.skip(i as int).skip(1) =~= y@.skip(i + 1));
        if x[i] != y[i] {
            return x[i] < y[i];
        }
        i += 1;
    }
    i >= x.len()
}

/// The global aliases, the file they are kept in, and the tags known when
/// the table was opened.
#[derive(Debug)]
pub struct GlobalAliasTable {
    path: String,
    table: Vec<(String, Alias)>,
    tags: Vec<String>,
}

/// Hands out the entries of a table one by one.
pub struct Iter {
    entries: Vec<(String, Alias)>,
}

impl View for GlobalAliasTable {
    type V = AliasMap;

    closed spec fn view(&self) -> AliasMap {
        table_of(entry_views(self.table@))
    }
}

impl GlobalAliasTable {
    #[verifier::type_invariant]
    spec fn names_are_distinct(self) -> bool {
        distinct_names(entry_views(self.table@))
    }

    /// The path of the file that the table is kept in.
    pub closed spec fn file(&self) -> Seq<char> {
        self.path@
    }

    /// The tags known when the table was opened.
    pub closed spec fn known_tags(&self) -> Seq<String> {
        self.tags@
    }

    /// The table kept at `path` with the aliases `entries`, of which a later
    /// one replaces an earlier one of the same name.
    pub fn new(path: String, entries: Vec<(String, Alias)>, tags: Vec<String>) -> (table: Self)
        ensures
            table@ == table_of(entry_views(entries@)),
            table.file() == path@,
            table.known_tags() == tags@,
    {
        let mut kept: Vec<(String, Alias)> = Vec::new();
        let ghost given = entry_views(entries@);
        let mut i: usize = 0;
        assert(given.take(0) =~= Seq::empty());
        while i < entries.len()
            invariant
                i <= entries.len(),
                given == entry_views(entries@),
                distinct_names(entry_views(kept@)),
                table_of(entry_views(kept@)) == table_of(given.take(i as int)),
            decreases entries.len() - i,
        {
            put_alias(&mut kept, entries[i].0.clone(), entries[i].1.duplicate());
            assert(given.take(i + 1).drop_last() =~= given.take(i as int));
            i += 1;
        }
        assert(given.take(entries.len() as int) =~= given);
        GlobalAliasTable { path, table: kept, tags }
    }

    /// Lets `from` stand for `to`, in place of what it stood for before.
    pub fn add(&mut self, from: String, to: String, recursive: bool)
        ensures
            final(self)@ == old(self)@.insert(
                from@,
                crate::alias::AliasView { expression: to@, recursive },
            ),
            final(self).file() == old(self).file(),
            final(self).known_tags() == old(self).known_tags(),
    {
        proof {
            use_type_invariant(&*self);
        }
        let mut table: Vec<(String, Alias)> = Vec::new();
        core::mem::swap(&mut table, &mut self.table);
        put_alias(&mut table, from, Alias { expression: to, recursive });
        self.table = table;
    }

    /// Takes the alias `name` out of the table, if it is there.
    pub fn delete(&mut self, name: &str)
        ensures
            final(self)@ == old(self)@.remove(name@),
            final(self).file() == old(self).file(),
            final(self).known_tags() == old(self).known_tags(),
    {
        proof {
            use_type_invariant(&*self);
            lemma_table_names(entry_views(self.table@), name@);
        }
        let ghost before = entry_views(self.table@);
        match find_name(&self.table, name) {
            Some(i) => {
                proof {
                    lemma_table_remove(before, i as int);
                }
                let mut table: Vec<(String, Alias)> = Vec::new();
                core::mem::swap(&mut table, &mut self.table);
                table.remove(i);
                assert(entry_views(table@) =~= before.remove(i as int));
                self.table = table;
            },
            None => {
                assert(!table_of(before).contains_key(name@)) by {
                    if table_of(before).contains_key(name@) {
                        let k = choose|k: int|
                            0 <= k < before.len() && (#[trigger] before[k]).0 == name@;
                        assert(old(self).table@[k].0@ != name@);
                    }
                }
                assert(table_of(before).remove(name@) =~= table_of(before));
            },
        }
    }

    /// The names of the aliases in the order of the dictionary, each once.
    pub fn names(&self) -> (names: Vec<&str>)
        ensures
            sorted(Seq::new(names.len() as nat, |i: int| names[i]@)),
            forall|i: int, j: int| 0 <= i < j < names.len() ==> names[i]@ != names[j]@,
            forall|i: int| 0 <= i < names.len() ==> self@.contains_key(#[trigger] names[i]@),
            forall|name: Seq<char>| #[trigger]
                self@.contains_key(name) ==> exists|i: int|
                    0 <= i < names.len() && #[trigger] names[i]@ == name,
    {
        proof {
            use_type_invariant(self);
        }
        let ghost entries = entry_views(self.table@);
        let mut names: Vec<&str> = Vec::new();
        // `origin[k]` is the entry that `names[k]` was taken from.
        let ghost mut origin: Seq<int> = Seq::empty();
        let mut i: usize = 0;
        while i < self.table.len()
            invariant
                i <= self.table.len(),
                entries == entry_views(self.table@),
                distinct_names(entries),
                names.len() == i,
                origin.len() == i,
                forall|k: int| 0 <= k < i ==> 0 <= #[trigger] origin[k] < i && names[k]@
                    == entries[origin[k]].0,
                forall|a: int, b: int| 0 <= a < b < i ==> origin[a] != origin[b],
                forall|e: int| 0 <= e < i ==> #[trigger] occurs(origin, e),
                forall|a: int, b: int| 0 <= a < b < i ==> text_le(names[a]@, names[b]@),
            decreases self.table.len() - i,
        {
            let name: &str = self.table[i].0.as_str();
            let mut at: usize = 0;
            while at < names.len() && text_before(names[at], name)
                invariant
                    at <= names.len(),
                    forall|k: int| 0 <= k < at ==> text_le(#[trigger] names[k]@, name@),
                decreases names.len() - at,
            {
                at += 1;
            }
            let ghost before = names@;
            let ghost origin_before = origin;
            names.insert(at, name);
            proof {
                origin = origin.insert(at as int, i as int);
                assert(entries[i as int].0 == name@);
                assert forall|a: int, b: int| 0 <= a < b < i + 1 implies text_le(
                    names[a]@,
                    names[b]@,
                ) by {
                    let a0 = if a < at { a } else { a - 1 };
                    let b0 = if b < at { b } else { b - 1 };
                    if a == at {
                        // `name` stands before what stood at `at`, and that
                        // before all behind it.
                        lemma_text_le_total(before[at as int]@, name@);
                        if b0 > at {
                            lemma_text_le_transitive(name@, before[at as int]@, before[b0]@);
                        }
                    } else if b == at {
                    } else {
                        assert(text_le(before[a0]@, before[b0]@));
                    }
                }
                assert forall|e: int| 0 <= e < i + 1 implies #[trigger] occurs(origin, e) by {
                    if e == i {
                        assert(origin[at as int] == e);
                    } else {
                        assert(occurs(origin_before, e));
                        let k0 = choose|k: int|
                            0 <= k < origin_before.len() && #[trigger] origin_before[k] == e;
                        let k = if k0 < at { k0 } else { k0 + 1 };
                        assert(origin[k] == e);
                    }
                }
                assert forall|k: int| 0 <= k < i + 1 implies 0 <= #[trigger] origin[k] < i + 1
                    && names[k]@ == entries[origin[k]].0 by {
                    if k != at {
                        let k0 = if k < at { k } else { k - 1 };
                        assert(0 <= origin_before[k0] < i);
                    }
                }
                assert forall|a: int, b: int| 0 <= a < b < i + 1 implies origin[a]
                    != origin[b] by {
                    let a0 = if a < at { a } else { a - 1 };
                    let b0 = if b < at { b } else { b - 1 };
                    if a != at && b != at {
                        assert(origin_before[a0] != origin_before[b0]);
                    } else if a == at {
                        assert(0 <= origin_before[b0] < i);
                    } else {
                        assert(0 <= origin_before[a0] < i);
                    }
                }
            }
            i += 1;
        }
        proof {
            assert forall|a: int, b: int| 0 <= a < b < names.len() implies names[a]@
                != names[b]@ by {
                let x = origin[a];
                let y = origin[b];
                if x < y {
                    assert(entries[x].0 != entries[y].0);
                } else {
                    assert(entries[y].0 != entries[x].0);
                }
            }
            assert forall|k: int| 0 <= k < names.len() implies self@.contains_key(
                #[trigger] names[k]@,
            ) by {
                lemma_table_lookup(entries, origin[k]);
            }
            assert forall|name: Seq<char>| #[trigger] self@.contains_key(name) implies exists|
                k: int,
            |
                0 <= k < names.len() && #[trigger] names[k]@ == name by {
                lemma_table_names(entries, name);
                let e = choose|e: int| 0 <= e < entries.len() && (#[trigger] entries[e]).0 == name;
                assert(occurs(origin, e));
                let k = choose|k: int| 0 <= k < origin.len() && #[trigger] origin[k] == e;
                assert(names[k]@ == name);
            }
        }
        names
    }

    /// The path of the file that the table is kept in.
    pub fn path(&self) -> (path: &str)
        ensures
            path@ == self.file(),
    {
        self.path.as_str()
    }

    /// The tags known when the table was opened.
    pub fn tags(&self) -> (tags: &Vec<String>)
        ensures
            tags@ == self.known_tags(),
    {
        &self.tags
    }

    /// The aliases of the table, each name once.
    pub fn entries(&self) -> (entries: &Vec<(String, Alias)>)
        ensures
            distinct_names(entry_views(entries@)),
            table_of(entry_views(entries@)) == self@,
    {
        proof {
            use_type_invariant(self);
        }
        &self.table
    }

    /// Hands the entries over, to be taken one by one.
    pub fn into_iter(self) -> (iter: Iter)
        ensures
            table_of(iter@) == self@,
            distinct_names(iter@),
    {
        proof {
            use_type_invariant(&self);
        }
        Iter { entries: self.table }
    }
}

impl View for Iter {
    type V = crate::alias::Entries;

    closed spec fn view(&self) -> crate::alias::Entries {
        entry_views(self.entries@)
    }
}

impl Iter {
    /// The last entry that is left, and with it gone from the rest; `None`
    /// once nothing is left.
    pub fn next(&mut self) -> (entry: Option<(String, Alias)>)
        ensures
            match entry {
                Some((name, alias)) => old(self)@.len() > 0 && final(self)@ == old(self)@.drop_last() && (name@, alias@) == old(self)@.last(),
                None => old(self)@.len() == 0 && final(self)@ == old(self)@,
            },
    {
        let ghost before = self.entries@;
        let entry = self.entries.pop();
        assert(entry is Some ==> entry_views(self.entries@) =~= entry_views(before).drop_last());
        entry
    }
}

} // verus!
