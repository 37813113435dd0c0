//! Rewriting a parsed query.

use vstd::prelude::*;
use crate::errors::AppResult;
use super::{element_views, Expression, ExpressionView, NoirQuery};

verus! {

/// The position of the first tag at or behind `from`; the length of
/// `elements` where there is none.
pub open spec fn first_tag_from(elements: Seq<ExpressionView>, from: int) -> int
    decreases elements.len() - from,
{
    if from < 0 || from >= elements.len() {
        elements.len() as int
    } else if elements[from] is NoirTag {
        from
    } else {
        first_tag_from(elements, from + 1)
    }
}

/// `elements` with its first tag replaced by the tag `tag`; `None` where it
/// holds no tag.
pub open spec fn replace_tag_spec(elements: Seq<ExpressionView>, tag: Seq<char>) -> Option<
    Seq<ExpressionView>,
> {
    let at = first_tag_from(elements, 0);
    if at < elements.len() {
        Some(elements.update(at, ExpressionView::NoirTag(tag)))
    } else {
        None
    }
}

/// Puts `tag` in the place of the first tag of `query`. A query without a tag
/// gives `None`. This never fails.
pub fn replace_tag(query: NoirQuery, tag: &str) -> (result: AppResult<Option<NoirQuery>>)
    ensures
        match replace_tag_spec(query@, tag@) {
            Some(elements) => result matches Ok(Some(replaced)) && replaced@ == elements,
            None => result matches Ok(None),
        },
{
    let mut elements = query.elements;
    let ghost before = elements@;
    let mut i: usize = 0;
    while i < elements.len()
        invariant
            i <= elements.len(),
            elements@ == before,
            query@ == element_views(before),
            first_tag_from(element_views(before), 0) == first_tag_from(
                element_views(before),
                i as int,
            ),
        decreases elements.len() - i,
    {
        let is_tag = match &elements[i] {
            Expression::NoirTag(_) => true,
            _ => false,
        };
        assert(element_views(before)[i as int] == before[i as int]@);
        if is_tag {
            assert(first_tag_from(element_views(before), i as int) == i);
            elements.set(i, Expression::NoirTag(tag.to_owned()));
            assert(element_views(elements@) =~= element_views(before).update(
                i as int,
                ExpressionView::NoirTag(tag@),
            ));
            return Ok(Some(NoirQuery { elements }));
        }
        i += 1;
    }
    Ok(None)
}

} // verus!
