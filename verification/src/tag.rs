//! Tag names.

use vstd::prelude::*;
use crate::errors::{AppError, AppResult};
use crate::text::{chars_of, is_whitespace, whitespace};

verus! {

/// What a tag name must be: one or more characters, none of them whitespace.
pub open spec fn is_tag_name(s: Seq<char>) -> bool {
    s.len() > 0 && forall|i: int| 0 <= i < s.len() ==> !is_whitespace(#[trigger] s[i])
}

/// The name of a tag.
#[derive(Debug, PartialEq, Eq)]
pub struct Tag(String);

impl View for Tag {
    type V = Seq<char>;

    closed spec fn view(&self) -> Seq<char> {
        self.0@
    }
}

/// The names of a list of tags.
pub open spec fn tag_names(tags: Seq<Tag>) -> Seq<Seq<char>> {
    Seq::new(tags.len(), |i: int| tags[i]@)
}

/// The texts of a list of strings.
pub open spec fn texts(items: Seq<String>) -> Seq<Seq<char>> {
    Seq::new(items.len(), |i: int| items[i]@)
}

/// The first position in `items` that holds no tag name; the length of
/// `items` where all are tag names.
pub open spec fn first_bad_name(items: Seq<Seq<char>>, from: int) -> int
    decreases items.len() - from,
{
    if from < 0 || from >= items.len() {
        items.len() as int
    } else if !is_tag_name(items[from]) {
        from
    } else {
        first_bad_name(items, from + 1)
    }
}

/// Whether `s` is a tag name.
pub fn valid_tag_name(s: &str) -> (valid: bool)
    ensures
        valid == is_tag_name(s@),
{
    let v = chars_of(s);
    if v.len() == 0 {
        return false;
    }
    let mut i: usize = 0;
    while i < v.len()
        invariant
            i <= v.len(),
            v@ == s@,
            forall|k: int| 0 <= k < i ==> !is_whitespace(#[trigger] s@[k]),
        decreases v.len() - i,
    {
        if whitespace(v[i]) {
            return false;
        }
        i += 1;
    }
    true
}

impl Tag {
    #[verifier::type_invariant]
    spec fn is_valid(self) -> bool {
        is_tag_name(self.0@)
    }

    /// The tag named `tag`. A text that is no tag name is refused with
    /// `InvalidTagFormat`, which carries the text.
    pub fn from_str(tag: &str) -> (result: AppResult<Tag>)
        ensures
            match result {
                Ok(t) => is_tag_name(tag@) && t@ == tag@,
                Err(AppError::InvalidTagFormat(given)) => !is_tag_name(tag@) && given@ == tag@,
                Err(_) => false,
            },
    {
        if valid_tag_name(tag) {
            Ok(Tag(tag.to_owned()))
        } else {
            Err(AppError::InvalidTagFormat(tag.to_owned()))
        }
    }

    /// The name.
    pub fn as_str(&self) -> (name: &str)
        ensures
            name@ == self@,
            is_tag_name(self@),
    {
        proof {
            use_type_invariant(self);
        }
        self.0.as_str()
    }
}

/// The tags named by `names`, in their order. The first text that is no tag
/// name is refused with `InvalidTagFormat`.
pub fn to_tags(names: &Vec<String>) -> (result: AppResult<Vec<Tag>>)
    ensures
        match result {
            Ok(tags) => first_bad_name(texts(names@), 0) == names.len() && tag_names(tags@)
                == texts(names@),
            Err(AppError::InvalidTagFormat(given)) => first_bad_name(texts(names@), 0)
                < names.len() && given@ == names[first_bad_name(texts(names@), 0)]@,
            Err(_) => false,
        },
{
    let mut tags: Vec<Tag> = Vec::new();
    let mut i: usize = 0;
    while i < names.len()
        invariant
            i <= names.len(),
            tags.len() == i,
            first_bad_name(texts(names@), 0) == first_bad_name(texts(names@), i as int),
            forall|k: int| 0 <= k < i ==> (#[trigger] tags[k])@ == names[k]@,
        decreases names.len() - i,
    {
        assert(texts(names@)[i as int] == names[i as int]@);
        match Tag::from_str(names[i].as_str()) {
            Ok(tag) => {
                tags.push(tag);
            },
            Err(error) => {
                return Err(error);
            },
        }
        i += 1;
    }
    assert(tag_names(tags@) =~= texts(names@));
    Ok(tags)
}

} // verus!
