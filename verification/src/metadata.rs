//! Container metadata.

use crate::text::{contains_nul, has_nul};
use vstd::prelude::*;

verus! {

/// A tag as its two texts.
pub open spec fn tag_view(tag: (String, String)) -> (Seq<char>, Seq<char>) {
    (tag.0@, tag.1@)
}

/// A tag that a dictionary of C strings can hold.
pub open spec fn is_usable(tag: (Seq<char>, Seq<char>)) -> bool {
    !contains_nul(tag.0) && !contains_nul(tag.1)
}

/// The tags as texts.
pub open spec fn tag_views(tags: Seq<(String, String)>) -> Seq<(Seq<char>, Seq<char>)> {
    tags.map_values(|t: (String, String)| tag_view(t))
}

/// The tags that can be held, in their order.
pub open spec fn usable_tags(tags: Seq<(Seq<char>, Seq<char>)>) -> Seq<(Seq<char>, Seq<char>)>
    decreases tags.len(),
{
    if tags.len() == 0 {
        seq![]
    } else if is_usable(tags.last()) {
        usable_tags(tags.drop_last()).push(tags.last())
    } else {
        usable_tags(tags.drop_last())
    }
}

/// The tags to set on an output, in their order. A tag with a NUL byte in
/// its key or its value cannot be held and is left out.
pub fn set_format_metadata(tags: &Vec<(String, String)>) -> (r: Vec<(String, String)>)
    ensures
        tag_views(r@) == usable_tags(tag_views(tags@)),
{
    let mut r: Vec<(String, String)> = Vec::new();
    assert(tag_views(r@) =~= usable_tags(tag_views(tags@).take(0)));
    for i in 0..tags.len()
        invariant
            tag_views(r@) == usable_tags(tag_views(tags@).take(i as int)),
    {
        let ghost all = tag_views(tags@);
        let ghost before = r@;
        proof {
            assert(all.take(i + 1).drop_last() =~= all.take(i as int));
            assert(all.take(i + 1).last() == tag_view(tags@[i as int]));
        }
        if !has_nul(tags[i].0.as_str()) && !has_nul(tags[i].1.as_str()) {
            let tag = (tags[i].0.clone(), tags[i].1.clone());
            r.push(tag);
            assert(tag_views(r@) =~= tag_views(before).push(tag_view(tag)));
        }
    }
    assert(tag_views(tags@).take(tags@.len() as int) =~= tag_views(tags@));
    r
}

/// Tags without NUL bytes all stay, as they are.
pub proof fn law_clean_tags_stay(tags: Seq<(Seq<char>, Seq<char>)>)
    requires
        forall|i: int| 0 <= i < tags.len() ==> is_usable(#[trigger] tags[i]),
    ensures
        usable_tags(tags) == tags,
    decreases tags.len(),
{
    if tags.len() > 0 {
        law_clean_tags_stay(tags.drop_last());
        assert(usable_tags(tags) =~= tags);
    } else {
        assert(usable_tags(tags) =~= tags);
    }
}

/// No tag that is set holds a NUL byte.
pub proof fn law_no_nul_is_set(tags: Seq<(Seq<char>, Seq<char>)>, i: int)
    requires
        0 <= i < usable_tags(tags).len(),
    ensures
        is_usable(usable_tags(tags)[i]),
    decreases tags.len(),
{
    if tags.len() > 0 {
        let front = usable_tags(tags.drop_last());
        if i < front.len() {
            law_no_nul_is_set(tags.drop_last(), i);
        }
    }
}

/// A tag is left out exactly when its key or its value holds a NUL, and the
/// tags of two lists are set one list after the other.
pub proof fn law_tags_are_judged_one_by_one(
    a: Seq<(Seq<char>, Seq<char>)>,
    b: Seq<(Seq<char>, Seq<char>)>,
    tag: (Seq<char>, Seq<char>),
)
    ensures
        usable_tags(a + b) == usable_tags(a) + usable_tags(b),
        tag.0.contains('\0') || tag.1.contains('\0') ==> usable_tags(seq![tag]).len() == 0,
        !tag.0.contains('\0') && !tag.1.contains('\0') ==> usable_tags(seq![tag]) == seq![tag],
    decreases b.len(),
{
    reveal_with_fuel(usable_tags, 2);
    let one = seq![tag];
    assert(one.drop_last() =~= Seq::<(Seq<char>, Seq<char>)>::empty());
    assert(tag.0.contains('\0') <==> contains_nul(tag.0));
    assert(tag.1.contains('\0') <==> contains_nul(tag.1));
    if is_usable(tag) {
        assert(usable_tags(one) =~= one);
    }
    if b.len() == 0 {
        assert(a + b =~= a);
        assert(usable_tags(a) + usable_tags(b) =~= usable_tags(a));
    } else {
        law_tags_are_judged_one_by_one(a, b.drop_last(), tag);
        assert((a + b).drop_last() =~= a + b.drop_last());
        assert((a + b).last() == b.last());
        assert(usable_tags(a + b) =~= usable_tags(a) + usable_tags(b));
    }
}

/// A tag is its key and its value, and a list of tags is these in order.
pub proof fn law_tag_views(tags: Seq<(String, String)>, i: int)
    requires
        0 <= i < tags.len(),
    ensures
        tag_view(tags[i]).0 == tags[i].0@,
        tag_view(tags[i]).1 == tags[i].1@,
        tag_views(tags).len() == tags.len(),
        tag_views(tags)[i].0 == tags[i].0@,
        tag_views(tags)[i].1 == tags[i].1@,
{
}

} // verus!
