//! What the command line decides before it turns to the catalog.

use vstd::prelude::*;
use crate::text::{lowercase, push_char, text_eq, to_lowercase};

verus! {

/// The words with a space between each two.
pub open spec fn joined(words: Seq<Seq<char>>) -> Seq<char>
    decreases words.len(),
{
    if words.len() == 0 {
        Seq::empty()
    } else if words.len() == 1 {
        words[0]
    } else {
        joined(words.drop_last()) + seq![' '] + words.last()
    }
}

/// The texts of a list of words.
pub open spec fn word_views(words: Seq<&str>) -> Seq<Seq<char>> {
    Seq::new(words.len(), |i: int| words[i]@)
}

/// The words of an expression as one text, with a space between each two.
pub fn join(strings: &[&str]) -> (joined_text: String)
    ensures
        joined_text@ == joined(word_views(strings@)),
{
    let mut text = String::new();
    let mut i: usize = 0;
    let ghost words = word_views(strings@);
    assert(words.take(0) =~= Seq::empty());
    while i < strings.len()
        invariant
            i <= strings.len(),
            words == word_views(strings@),
            text@ == joined(words.take(i as int)),
        decreases strings.len() - i,
    {
        let ghost before = text@;
        if 0 < i {
            push_char(&mut text, ' ');
        }
        text.append(strings[i]);
        proof {
            let next = words.take(i + 1);
            assert(next.drop_last() =~= words.take(i as int));
            assert(next.last() == strings@[i as int]@);
            if i == 0 {
                assert(before =~= Seq::<char>::empty());
                assert(text@ =~= next[0]);
            } else {
                assert(text@ =~= before + seq![' '] + next.last());
            }
        }
        i += 1;
    }
    assert(words.take(strings.len() as int) =~= words);
    text
}

/// Whether the answer to "Are you sure?" is a yes: the line `yes`, in
/// letters of any case.
pub fn confirmed(answer: &str) -> (yes: bool)
    ensures
        yes == (lowercase(answer@) == "yes\n"@),
{
    let lower = to_lowercase(answer);
    text_eq(lower.as_str(), "yes\n")
}

} // verus!
