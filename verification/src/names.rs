//! Sorted lists of distinct names.
use vstd::prelude::*;

use crate::text;
use crate::text::{same_text, text_before, text_views};
use crate::text_map::{lemma_before_excludes, lemma_before_total, lemma_before_transitive};

verus! {

/// A name put in its place: before the first greater one, unless it is there.
pub open spec fn put(list: Seq<Seq<char>>, name: Seq<char>) -> Seq<Seq<char>>
    decreases list.len(),
{
    if list.len() == 0 {
        seq![name]
    } else if list[0] == name {
        list
    } else if text::before(name, list[0]) {
        seq![name] + list
    } else {
        seq![list[0]] + put(list.skip(1), name)
    }
}

pub open spec fn ascending(list: Seq<Seq<char>>) -> bool {
    forall|i: int, j: int|
        0 <= i < j < list.len() ==> text::before(#[trigger] list[i], #[trigger] list[j])
}

/// Putting a name in place adds that name and no other, and keeps the order.
pub proof fn law_put(list: Seq<Seq<char>>, name: Seq<char>)
    requires
        ascending(list),
    ensures
        ascending(put(list, name)),
        forall|x: Seq<char>| #[trigger]
            put(list, name).contains(x) <==> x == name || list.contains(x),
    decreases list.len(),
{
    let out = put(list, name);
    if list.len() == 0 {
        assert(out[0] == name);
    } else if list[0] == name {
        assert(list.contains(name));
    } else if text::before(name, list[0]) {
        assert(out[0] == name);
        assert forall|i: int, j: int| 0 <= i < j < out.len() implies text::before(
            #[trigger] out[i],
            #[trigger] out[j],
        ) by {
            assert(out[j] == list[j - 1]);
            if i > 0 {
                assert(out[i] == list[i - 1]);
            } else if j > 1 {
                assert(text::before(list[0], list[j - 1]));
                lemma_before_transitive(name, list[0], list[j - 1]);
            }
        }
        assert forall|x: Seq<char>| #[trigger] out.contains(x) <==> x == name || list.contains(
            x,
        ) by {
            if list.contains(x) {
                let k = choose|k: int| 0 <= k < list.len() && list[k] == x;
                assert(out[k + 1] == x);
            }
            if out.contains(x) && x != name {
                let k = choose|k: int| 0 <= k < out.len() && out[k] == x;
                assert(list[k - 1] == x);
            }
        }
    } else {
        let rest = list.skip(1);
        assert forall|i: int, j: int| 0 <= i < j < rest.len() implies text::before(
            #[trigger] rest[i],
            #[trigger] rest[j],
        ) by {
            assert(rest[i] == list[i + 1] && rest[j] == list[j + 1]);
        }
        law_put(rest, name);
        let tail = put(rest, name);
        lemma_before_total(list[0], name);
        assert forall|i: int, j: int| 0 <= i < j < out.len() implies text::before(
            #[trigger] out[i],
            #[trigger] out[j],
        ) by {
            assert(out[j] == tail[j - 1]);
            if i > 0 {
                assert(out[i] == tail[i - 1]);
            } else {
                assert(tail.contains(tail[j - 1]));
                if tail[j - 1] != name {
                    let k = choose|k: int| 0 <= k < rest.len() && rest[k] == tail[j - 1];
                    assert(rest[k] == list[k + 1]);
                }
            }
        }
        assert forall|x: Seq<char>| #[trigger] out.contains(x) <==> x == name || list.contains(
            x,
        ) by {
            if out.contains(x) {
                let k = choose|k: int| 0 <= k < out.len() && out[k] == x;
                if k == 0 {
                    assert(list[0] == x);
                } else {
                    assert(tail[k - 1] == x);
                    assert(tail.contains(x));
                    if x != name {
                        let m = choose|m: int| 0 <= m < rest.len() && rest[m] == x;
                        assert(list[m + 1] == x);
                    }
                }
            }
            if x == name || list.contains(x) {
                if x != name {
                    let m = choose|m: int| 0 <= m < list.len() && list[m] == x;
                    if m == 0 {
                        assert(out[0] == x);
                    } else {
                        assert(rest[m - 1] == x);
                        assert(rest.contains(x));
                    }
                }
                if out[0] != x {
                    assert(tail.contains(x));
                    let k = choose|k: int| 0 <= k < tail.len() && tail[k] == x;
                    assert(out[k + 1] == x);
                }
            }
        }
    }
}

/// Puts a name in its place in a list.
pub fn insert_name(list: &mut Vec<String>, name: String)
    ensures
        text_views(final(list)@) == put(text_views(old(list)@), name@),
{
    let ghost before = text_views(list@);
    let mut i: usize = 0;
    assert(before.take(0) + put(before.skip(0), name@) =~= put(before, name@)) by {
        assert(before.skip(0) =~= before);
    }
    while i < list.len() && text_before(&list[i], &name)
        invariant
            i <= list@.len(),
            before == text_views(list@),
            list@ == old(list)@,
            before.take(i as int) + put(before.skip(i as int), name@) == put(before, name@),
        decreases list@.len() - i,
    {
        proof {
            let rest = before.skip(i as int);
            lemma_before_excludes(list@[i as int]@, name@);
            assert(rest[0] == before[i as int]);
            assert(rest.skip(1) =~= before.skip(i + 1));
            assert(before.take(i as int) + (seq![rest[0]] + put(rest.skip(1), name@))
                =~= before.take(i + 1) + put(before.skip(i + 1), name@));
        }
        i = i + 1;
    }
    let ghost rest = before.skip(i as int);
    if i < list.len() && same_text(&list[i], &name) {
        proof {
            assert(rest[0] == before[i as int]);
            assert(before.take(i as int) + rest =~= before);
        }
        return ;
    }
    proof {
        if i < list@.len() {
            assert(rest[0] == before[i as int]);
            lemma_before_total(list@[i as int]@, name@);
        }
    }
    let ghost added = name@;
    list.insert(i, name);
    proof {
        assert(text_views(list@) =~= before.take(i as int) + (seq![added] + rest));
        if i == before.len() {
            assert(rest =~= Seq::empty());
            assert(seq![added] + rest =~= seq![added]);
        }
    }
}

pub fn has_name(list: &Vec<String>, name: &str) -> (res: bool)
    ensures
        res == text_views(list@).contains(name@),
{
    let ghost views = text_views(list@);
    let mut i: usize = 0;
    while i < list.len()
        invariant
            i <= list@.len(),
            views == text_views(list@),
            forall|j: int| 0 <= j < i ==> #[trigger] views[j] != name@,
        decreases list@.len() - i,
    {
        assert(views[i as int] == list@[i as int]@);
        if same_text(&list[i], name) {
            return true;
        }
        i = i + 1;
    }
    false
}

/// The place of a name in a list, or the length of the list.
pub open spec fn place_of(list: Seq<Seq<char>>, name: Seq<char>) -> int
    decreases list.len(),
{
    if list.len() == 0 || list[0] == name {
        0
    } else {
        1 + place_of(list.skip(1), name)
    }
}

pub proof fn lemma_place(list: Seq<Seq<char>>, name: Seq<char>, i: int)
    requires
        0 <= i <= list.len(),
        forall|j: int| 0 <= j < i ==> #[trigger] list[j] != name,
        i == list.len() || list[i] == name,
    ensures
        place_of(list, name) == i,
    decreases list.len(),
{
    if list.len() > 0 && i > 0 {
        let rest = list.skip(1);
        assert(list[0] != name);
        assert forall|j: int| 0 <= j < i - 1 implies #[trigger] rest[j] != name by {
            assert(rest[j] == list[j + 1]);
        }
        lemma_place(rest, name, i - 1);
    }
}

pub fn find_name(list: &Vec<String>, name: &str) -> (at: usize)
    ensures
        at == place_of(text_views(list@), name@),
        at <= list@.len(),
        at < list@.len() <==> text_views(list@).contains(name@),
{
    let ghost views = text_views(list@);
    let mut i: usize = 0;
    while i < list.len()
        invariant
            i <= list@.len(),
            views == text_views(list@),
            forall|j: int| 0 <= j < i ==> #[trigger] views[j] != name@,
        decreases list@.len() - i,
    {
        assert(views[i as int] == list@[i as int]@);
        if same_text(&list[i], name) {
            proof {
                lemma_place(views, name@, i as int);
            }
            return i;
        }
        i = i + 1;
    }
    proof {
        lemma_place(views, name@, i as int);
    }
    i
}

} // verus!
