//! Tag lists: comma-delimited texts whose pieces, trimmed, are the tags.

use crate::text::{chars_of, copy_range, same_chars, split, split_bounds, trim_range, trimmed};
use vstd::prelude::*;

verus! {

/// The tags that a comma-delimited text names: its pieces, each trimmed.
/// A piece that is empty or blank is the empty tag.
pub open spec fn tag_list(tags: Seq<char>) -> Seq<Seq<char>> {
    let pieces = split(tags, ',');
    Seq::new(pieces.len(), |k: int| trimmed(pieces[k]))
}

/// Whether the two tag lists have a tag in common.
pub open spec fn tags_intersect(a: Seq<char>, b: Seq<char>) -> bool {
    exists|i: int, j: int|
        #![trigger tag_list(a)[i], tag_list(b)[j]]
        0 <= i < tag_list(a).len() && 0 <= j < tag_list(b).len() && tag_list(a)[i] == tag_list(
            b,
        )[j]
}

/// Whether a listing filtered by `filter` shows a secret tagged `tags`: an
/// empty filter shows every secret, any other one those that share a tag
/// with it.
pub open spec fn filter_accepts(filter: Seq<char>, tags: Seq<char>) -> bool {
    filter.len() == 0 || tags_intersect(tags, filter)
}

/// The tags named by a comma-delimited text, in order.
pub fn tags_of(tags: &str) -> (r: Vec<Vec<char>>)
    ensures
        r@.len() == tag_list(tags@).len(),
        forall|k: int| 0 <= k < r@.len() ==> (#[trigger] r@[k])@ == tag_list(tags@)[k],
{
    let chars = chars_of(tags);
    let bounds = split_bounds(&chars, ',');
    let mut r: Vec<Vec<char>> = Vec::new();
    let mut k: usize = 0;
    while k < bounds.len()
        invariant
            chars@ == tags@,
            k <= bounds@.len(),
            bounds@.len() == split(chars@, ',').len(),
            forall|m: int|
                0 <= m < bounds@.len() ==> (#[trigger] bounds@[m]).0 <= bounds@[m].1 <= chars@.len()
                    && chars@.subrange(bounds@[m].0 as int, bounds@[m].1 as int) == split(
                    chars@,
                    ',',
                )[m],
            r@.len() == k,
            forall|m: int| 0 <= m < k ==> (#[trigger] r@[m])@ == tag_list(tags@)[m],
        decreases bounds@.len() - k,
    {
        let (lo, hi) = bounds[k];
        assert(bounds@[k as int].0 == lo && bounds@[k as int].1 == hi);
        let (a, b) = trim_range(&chars, lo, hi);
        let tag = copy_range(&chars, a, b);
        r.push(tag);
        k += 1;
    }
    r
}

/// Whether a secret tagged `tags` shares a tag with `filter`.
pub fn tags_match(tags: &str, filter: &str) -> (b: bool)
    ensures
        b == tags_intersect(tags@, filter@),
{
    let have = tags_of(tags);
    let want = tags_of(filter);
    let mut i: usize = 0;
    while i < have.len()
        invariant
            i <= have@.len(),
            have@.len() == tag_list(tags@).len(),
            want@.len() == tag_list(filter@).len(),
            forall|k: int| 0 <= k < have@.len() ==> (#[trigger] have@[k])@ == tag_list(tags@)[k],
            forall|k: int| 0 <= k < want@.len() ==> (#[trigger] want@[k])@ == tag_list(filter@)[k],
            forall|x: int, y: int|
                #![trigger tag_list(tags@)[x], tag_list(filter@)[y]]
                0 <= x < i && 0 <= y < want@.len() ==> tag_list(tags@)[x] != tag_list(filter@)[y],
        decreases have@.len() - i,
    {
        let mut j: usize = 0;
        while j < want.len()
            invariant
                i < have@.len(),
                j <= want@.len(),
                have@.len() == tag_list(tags@).len(),
                want@.len() == tag_list(filter@).len(),
                forall|k: int|
                    0 <= k < have@.len() ==> (#[trigger] have@[k])@ == tag_list(tags@)[k],
                forall|k: int|
                    0 <= k < want@.len() ==> (#[trigger] want@[k])@ == tag_list(filter@)[k],
                forall|y: int|
                    0 <= y < j ==> tag_list(tags@)[i as int] != #[trigger] tag_list(filter@)[y],
            decreases want@.len() - j,
        {
            if same_chars(&have[i], &want[j]) {
                assert(have@[i as int]@ == tag_list(tags@)[i as int]);
                assert(want@[j as int]@ == tag_list(filter@)[j as int]);
                return true;
            }
            assert(have@[i as int]@ == tag_list(tags@)[i as int]);
            assert(want@[j as int]@ == tag_list(filter@)[j as int]);
            j += 1;
        }
        i += 1;
    }
    false
}

/// Whether a listing filtered by `filter` shows a secret tagged `tags`.
pub fn accepts(filter: &str, tags: &str) -> (b: bool)
    ensures
        b == filter_accepts(filter@, tags@),
{
    if filter.unicode_len() == 0 {
        true
    } else {
        tags_match(tags, filter)
    }
}

} // verus!
