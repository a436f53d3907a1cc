//! Which changes bring the tags of a monitor to what they are meant to be.
use crate::model::copy_text;
use crate::model::same_option;
use crate::model::same_text;
use crate::model::tag_views;
use crate::model::text_option;
use crate::model::text_or_empty;
use crate::model::Tag;
use crate::model::TagView;
use itertools::Itertools;
use vstd::prelude::*;

verus! {

/// A change to one tag of a monitor.
#[derive(Debug)]
pub enum TagChange {
    Add { tag_id: i32, value: Option<String> },
    Edit { tag_id: i32, value: Option<String> },
    Delete { tag_id: i32, value: Option<String> },
}

/// What a `TagChange` holds.
pub enum TagChangeView {
    Add { tag_id: i32, value: Option<Seq<char>> },
    Edit { tag_id: i32, value: Option<Seq<char>> },
    Delete { tag_id: i32, value: Option<Seq<char>> },
}

impl View for TagChange {
    type V = TagChangeView;

    open spec fn view(&self) -> TagChangeView {
        match *self {
            TagChange::Add { tag_id, value } => TagChangeView::Add {
                tag_id,
                value: text_option(value),
            },
            TagChange::Edit { tag_id, value } => TagChangeView::Edit {
                tag_id,
                value: text_option(value),
            },
            TagChange::Delete { tag_id, value } => TagChangeView::Delete {
                tag_id,
                value: text_option(value),
            },
        }
    }
}

/// What several changes hold, in order.
pub open spec fn change_views(changes: Seq<TagChange>) -> Seq<TagChangeView> {
    changes.map_values(|change: TagChange| change@)
}

/// The position of the last tag with the id, -1 where there is none.
pub open spec fn latest(tags: Seq<TagView>, id: i32) -> int
    decreases tags.len(),
{
    if tags.len() == 0 {
        -1
    } else if tags.last().tag_id == Some(id) {
        tags.len() - 1
    } else {
        latest(tags.drop_last(), id)
    }
}

/// Whether a tag with the id is among them.
pub open spec fn has_tag(tags: Seq<TagView>, id: i32) -> bool {
    latest(tags, id) >= 0
}

/// The value of the last tag with the id.
pub open spec fn latest_value(tags: Seq<TagView>, id: i32) -> Option<Seq<char>> {
    tags[latest(tags, id)].value
}

/// Whether the tag at `i` is the second one with its id.
pub open spec fn is_second(tags: Seq<TagView>, i: int) -> bool {
    exists|j: int|
        0 <= j < i && (#[trigger] tags[j]).tag_id == tags[i].tag_id && forall|k: int|
            0 <= k < i && (#[trigger] tags[k]).tag_id == tags[i].tag_id ==> k == j
}

/// Whether more than one tag has the id.
pub open spec fn is_repeated(tags: Seq<TagView>, id: i32) -> bool {
    exists|i: int|
        0 <= i < tags.len() && (#[trigger] tags[i]).tag_id == Some(id) && is_second(tags, i)
}

/// The changes that the positions below `n` call for, in order.
pub open spec fn collected(
    n: nat,
    change: spec_fn(int) -> Option<TagChangeView>,
) -> Seq<TagChangeView>
    decreases n,
{
    if n == 0 {
        Seq::empty()
    } else {
        match change(n - 1) {
            Some(c) => collected((n - 1) as nat, change).push(c),
            None => collected((n - 1) as nat, change),
        }
    }
}

/// The second tag of an id is deleted.
pub open spec fn repeat_at(current: Seq<TagView>) -> spec_fn(int) -> Option<TagChangeView> {
    |i: int|
        match current[i].tag_id {
            Some(id) => if is_second(current, i) {
                Some(TagChangeView::Delete { tag_id: id, value: current[i].value })
            } else {
                None
            },
            None => None,
        }
}

/// A tag whose id is not wanted is deleted, unless one of that id is deleted as a repeat.
pub open spec fn removal_at(
    current: Seq<TagView>,
    wanted: Seq<TagView>,
) -> spec_fn(int) -> Option<TagChangeView> {
    |i: int|
        match current[i].tag_id {
            Some(id) => if latest(current, id) == i && !has_tag(wanted, id) && !is_repeated(
                current,
                id,
            ) {
                Some(TagChangeView::Delete { tag_id: id, value: current[i].value })
            } else {
                None
            },
            None => None,
        }
}

/// A tag that is wanted is added where its id is missing.
pub open spec fn addition_at(
    current: Seq<TagView>,
    wanted: Seq<TagView>,
) -> spec_fn(int) -> Option<TagChangeView> {
    |i: int|
        match wanted[i].tag_id {
            Some(id) => if latest(wanted, id) == i && !has_tag(current, id) {
                Some(TagChangeView::Add { tag_id: id, value: wanted[i].value })
            } else {
                None
            },
            None => None,
        }
}

/// A tag that is wanted with another value is edited.
pub open spec fn edit_at(
    current: Seq<TagView>,
    wanted: Seq<TagView>,
) -> spec_fn(int) -> Option<TagChangeView> {
    |i: int|
        match current[i].tag_id {
            Some(id) => if latest(current, id) == i && has_tag(wanted, id) && current[i].value
                != latest_value(wanted, id) {
                Some(TagChangeView::Edit { tag_id: id, value: latest_value(wanted, id) })
            } else {
                None
            },
            None => None,
        }
}

/// Every tag with an id is added.
pub open spec fn fresh_at(wanted: Seq<TagView>) -> spec_fn(int) -> Option<TagChangeView> {
    |i: int|
        match wanted[i].tag_id {
            Some(id) => Some(TagChangeView::Add { tag_id: id, value: wanted[i].value }),
            None => None,
        }
}

/// The changes that bring the tags of a monitor from `current` to `wanted`: first repeats go, then
/// what is not wanted; then what is missing comes, and then values are set.
pub open spec fn changes_between(
    current: Seq<TagView>,
    wanted: Seq<TagView>,
) -> Seq<TagChangeView> {
    collected(current.len(), repeat_at(current)) + collected(
        current.len(),
        removal_at(current, wanted),
    ) + collected(wanted.len(), addition_at(current, wanted)) + collected(
        current.len(),
        edit_at(current, wanted),
    )
}

/// The changes that give a monitor the tags `wanted`, where `current` is what it has, if that is
/// known.
pub open spec fn changes_to(
    current: Option<Seq<TagView>>,
    wanted: Seq<TagView>,
) -> Seq<TagChangeView> {
    match current {
        Some(current) => changes_between(current, wanted),
        None => collected(wanted.len(), fresh_at(wanted)),
    }
}

/// Whether `positions` are those of the second tags of an id, in ascending order.
pub open spec fn are_seconds(positions: Seq<usize>, tags: Seq<TagView>) -> bool {
    &&& forall|i: int, j: int| 0 <= i < j < positions.len() ==> positions[i] < positions[j]
    &&& forall|n: usize| #[trigger]
        positions.contains(n) <==> n < tags.len() && is_second(tags, n as int)
}

/// `Itertools::duplicates_by` on the tags by their ids: the positions of the tags that are the
/// second one with their id, in ascending order.
#[verifier::external_body]
fn repeats(tags: &Vec<Tag>) -> (r: Vec<usize>)
    ensures
        are_seconds(r@, tag_views(tags@)),
{
    tags.iter().enumerate().duplicates_by(|entry| entry.1.tag_id).map(|entry| entry.0).collect_vec()
}

/// What `latest` is: the position of a tag with the id behind which there is none, if there is one.
proof fn lemma_latest(tags: Seq<TagView>, id: i32)
    ensures
        -1 <= latest(tags, id) < tags.len(),
        latest(tags, id) >= 0 ==> tags[latest(tags, id)].tag_id == Some(id),
        forall|k: int| latest(tags, id) < k < tags.len() ==> (#[trigger] tags[k]).tag_id != Some(id),
    decreases tags.len(),
{
    if tags.len() > 0 && tags.last().tag_id != Some(id) {
        let front = tags.drop_last();
        lemma_latest(front, id);
        assert forall|k: int| latest(tags, id) < k < tags.len() implies (
        #[trigger] tags[k]).tag_id != Some(id) by {
            if k < front.len() {
                assert(front[k] == tags[k]);
            }
        }
    }
}

/// The position of the last tag with the id.
fn find_latest(tags: &Vec<Tag>, id: i32) -> (r: Option<usize>)
    ensures
        match r {
            Some(i) => i == latest(tag_views(tags@), id),
            None => latest(tag_views(tags@), id) == -1,
        },
{
    let ghost views = tag_views(tags@);
    let mut i: usize = tags.len();
    assert(views.take(i as int) =~= views);
    while i > 0
        invariant
            i <= tags.len(),
            views == tag_views(tags@),
            latest(views, id) == latest(views.take(i as int), id),
        decreases i,
    {
        assert(views.take(i as int).drop_last() =~= views.take(i - 1));
        assert(views.take(i as int).last() == tags@[i - 1]@);
        if let Some(other) = tags[i - 1].tag_id {
            if other == id {
                return Some(i - 1);
            }
        }
        i = i - 1;
    }
    None
}

/// Whether one of the tags at `positions` has the id.
fn is_among(tags: &Vec<Tag>, positions: &Vec<usize>, id: i32) -> (r: bool)
    requires
        are_seconds(positions@, tag_views(tags@)),
    ensures
        r == is_repeated(tag_views(tags@), id),
{
    let ghost views = tag_views(tags@);
    let mut k: usize = 0;
    while k < positions.len()
        invariant
            k <= positions.len(),
            views == tag_views(tags@),
            are_seconds(positions@, views),
            forall|m: int| 0 <= m < k ==> views[#[trigger] positions@[m] as int].tag_id != Some(id),
        decreases positions.len() - k,
    {
        let n = positions[k];
        assert(positions@.contains(n));
        assert(views[n as int] == tags@[n as int]@);
        if let Some(other) = tags[n].tag_id {
            if other == id {
                return true;
            }
        }
        k = k + 1;
    }
    assert(!is_repeated(views, id)) by {
        if is_repeated(views, id) {
            let i = choose|i: int|
                0 <= i < views.len() && (#[trigger] views[i]).tag_id == Some(id) && is_second(
                    views,
                    i,
                );
            assert(views.len() == tags.len());
            assert(positions@.contains(i as usize));
            let m = choose|m: int| 0 <= m < positions@.len() && positions@[m] == i as usize;
            assert(views[positions@[m] as int].tag_id != Some(id));
        }
    }
    false
}

/// Appends the deletions of repeats.
fn push_repeats(changes: &mut Vec<TagChange>, current: &Vec<Tag>, positions: &Vec<usize>)
    requires
        are_seconds(positions@, tag_views(current@)),
    ensures
        change_views(final(changes)@) == change_views(old(changes)@) + collected(
            current@.len(),
            repeat_at(tag_views(current@)),
        ),
{
    let ghost views = tag_views(current@);
    let ghost start = change_views(changes@);
    let mut i: usize = 0;
    let mut p: usize = 0;
    assert(start + collected(0, repeat_at(views)) =~= start);
    while i < current.len()
        invariant
            i <= current.len(),
            p <= positions.len(),
            views == tag_views(current@),
            are_seconds(positions@, views),
            forall|a: int| 0 <= a < p ==> (#[trigger] positions@[a]) < i,
            forall|a: int| p <= a < positions@.len() ==> (#[trigger] positions@[a]) >= i,
            change_views(changes@) == start + collected(i as nat, repeat_at(views)),
        decreases current.len() - i,
    {
        let ghost before = change_views(changes@);
        assert(views[i as int] == current@[i as int]@);
        if p < positions.len() && positions[p] == i {
            assert(positions@.contains(i));
            if let Some(id) = current[i].tag_id {
                changes.push(TagChange::Delete { tag_id: id, value: copy_text(&current[i].value) });
                assert(change_views(changes@) =~= before.push(
                    TagChangeView::Delete { tag_id: id, value: views[i as int].value },
                ));
            }
            p = p + 1;
        } else {
            assert(!positions@.contains(i)) by {
                if positions@.contains(i) {
                    let a = choose|a: int| 0 <= a < positions@.len() && positions@[a] == i;
                    assert(positions@[p as int] <= positions@[a]);
                }
            }
        }
        assert(change_views(changes@) =~= start + collected((i + 1) as nat, repeat_at(views)));
        i = i + 1;
    }
}

/// Appends the deletions of what is not wanted.
fn push_removals(
    changes: &mut Vec<TagChange>,
    current: &Vec<Tag>,
    wanted: &Vec<Tag>,
    positions: &Vec<usize>,
)
    requires
        are_seconds(positions@, tag_views(current@)),
    ensures
        change_views(final(changes)@) == change_views(old(changes)@) + collected(
            current@.len(),
            removal_at(tag_views(current@), tag_views(wanted@)),
        ),
{
    let ghost views = tag_views(current@);
    let ghost rule = removal_at(tag_views(current@), tag_views(wanted@));
    let ghost start = change_views(changes@);
    let mut i: usize = 0;
    assert(start + collected(0, rule) =~= start);
    while i < current.len()
        invariant
            i <= current.len(),
            views == tag_views(current@),
            rule == removal_at(tag_views(current@), tag_views(wanted@)),
            are_seconds(positions@, views),
            change_views(changes@) == start + collected(i as nat, rule),
        decreases current.len() - i,
    {
        let ghost before = change_views(changes@);
        assert(views[i as int] == current@[i as int]@);
        if let Some(id) = current[i].tag_id {
            let is_latest = match find_latest(current, id) {
                Some(at) => at == i,
                None => false,
            };
            if is_latest && find_latest(wanted, id).is_none() && !is_among(current, positions, id) {
                changes.push(TagChange::Delete { tag_id: id, value: copy_text(&current[i].value) });
                assert(change_views(changes@) =~= before.push(
                    TagChangeView::Delete { tag_id: id, value: views[i as int].value },
                ));
            }
        }
        assert(change_views(changes@) =~= start + collected((i + 1) as nat, rule));
        i = i + 1;
    }
}

/// Appends the additions of what is missing.
fn push_additions(changes: &mut Vec<TagChange>, current: &Vec<Tag>, wanted: &Vec<Tag>)
    ensures
        change_views(final(changes)@) == change_views(old(changes)@) + collected(
            wanted@.len(),
            addition_at(tag_views(current@), tag_views(wanted@)),
        ),
{
    let ghost views = tag_views(wanted@);
    let ghost rule = addition_at(tag_views(current@), tag_views(wanted@));
    let ghost start = change_views(changes@);
    let mut i: usize = 0;
    assert(start + collected(0, rule) =~= start);
    while i < wanted.len()
        invariant
            i <= wanted.len(),
            views == tag_views(wanted@),
            rule == addition_at(tag_views(current@), tag_views(wanted@)),
            change_views(changes@) == start + collected(i as nat, rule),
        decreases wanted.len() - i,
    {
        let ghost before = change_views(changes@);
        assert(views[i as int] == wanted@[i as int]@);
        if let Some(id) = wanted[i].tag_id {
            let is_latest = match find_latest(wanted, id) {
                Some(at) => at == i,
                None => false,
            };
            if is_latest && find_latest(current, id).is_none() {
                changes.push(TagChange::Add { tag_id: id, value: copy_text(&wanted[i].value) });
                assert(change_views(changes@) =~= before.push(
                    TagChangeView::Add { tag_id: id, value: views[i as int].value },
                ));
            }
        }
        assert(change_views(changes@) =~= start + collected((i + 1) as nat, rule));
        i = i + 1;
    }
}

/// Appends the edits of values.
fn push_edits(changes: &mut Vec<TagChange>, current: &Vec<Tag>, wanted: &Vec<Tag>)
    ensures
        change_views(final(changes)@) == change_views(old(changes)@) + collected(
            current@.len(),
            edit_at(tag_views(current@), tag_views(wanted@)),
        ),
{
    let ghost views = tag_views(current@);
    let ghost rule = edit_at(tag_views(current@), tag_views(wanted@));
    let ghost start = change_views(changes@);
    let mut i: usize = 0;
    assert(start + collected(0, rule) =~= start);
    while i < current.len()
        invariant
            i <= current.len(),
            views == tag_views(current@),
            rule == edit_at(tag_views(current@), tag_views(wanted@)),
            change_views(changes@) == start + collected(i as nat, rule),
        decreases current.len() - i,
    {
        let ghost before = change_views(changes@);
        assert(views[i as int] == current@[i as int]@);
        if let Some(id) = current[i].tag_id {
            let is_latest = match find_latest(current, id) {
                Some(at) => at == i,
                None => false,
            };
            if is_latest {
                if let Some(at) = find_latest(wanted, id) {
                    proof {
                        lemma_latest(tag_views(wanted@), id);
                        assert(tag_views(wanted@)[at as int] == wanted@[at as int]@);
                    }
                    if !same_text(&current[i].value, &wanted[at].value) {
                        changes.push(
                            TagChange::Edit { tag_id: id, value: copy_text(&wanted[at].value) },
                        );
                        assert(change_views(changes@) =~= before.push(
                            TagChangeView::Edit {
                                tag_id: id,
                                value: latest_value(tag_views(wanted@), id),
                            },
                        ));
                    }
                }
            }
        }
        assert(change_views(changes@) =~= start + collected((i + 1) as nat, rule));
        i = i + 1;
    }
}

/// The tags that a monitor is known to have.
pub open spec fn known(current: Option<&Vec<Tag>>) -> Option<Seq<TagView>> {
    match current {
        Some(current) => Some(tag_views(current@)),
        None => None,
    }
}

/// The changes that give a monitor the tags `wanted`, where `current` is what it has, if that is
/// known.
pub fn tag_changes(current: Option<&Vec<Tag>>, wanted: &Vec<Tag>) -> (r: Vec<TagChange>)
    ensures
        change_views(r@) == changes_to(known(current), tag_views(wanted@)),
{
    let mut changes: Vec<TagChange> = Vec::new();
    match current {
        Some(current) => {
            let positions = repeats(current);
            push_repeats(&mut changes, current, &positions);
            push_removals(&mut changes, current, wanted, &positions);
            push_additions(&mut changes, current, wanted);
            push_edits(&mut changes, current, wanted);
            assert(change_views(changes@) =~= changes_between(
                tag_views(current@),
                tag_views(wanted@),
            ));
        },
        None => {
            let ghost views = tag_views(wanted@);
            let mut i: usize = 0;
            assert(change_views(changes@) =~= collected(0, fresh_at(views)));
            while i < wanted.len()
                invariant
                    i <= wanted.len(),
                    views == tag_views(wanted@),
                    change_views(changes@) == collected(i as nat, fresh_at(views)),
                decreases wanted.len() - i,
            {
                let ghost before = change_views(changes@);
                assert(views[i as int] == wanted@[i as int]@);
                if let Some(id) = wanted[i].tag_id {
                    changes.push(TagChange::Add { tag_id: id, value: copy_text(&wanted[i].value) });
                    assert(change_views(changes@) =~= before.push(
                        TagChangeView::Add { tag_id: id, value: views[i as int].value },
                    ));
                }
                i = i + 1;
            }
        },
    }
    changes
}

/// The tag id that a change is about.
pub open spec fn about(change: TagChangeView) -> i32 {
    match change {
        TagChangeView::Add { tag_id, .. } => tag_id,
        TagChangeView::Edit { tag_id, .. } => tag_id,
        TagChangeView::Delete { tag_id, .. } => tag_id,
    }
}

/// What a change leaves under the tag id that it is about, nothing where it deletes the tag.
pub open spec fn left_by(change: TagChangeView) -> Option<Seq<char>> {
    match change {
        TagChangeView::Add { value, .. } => Some(text_or_empty(value)),
        TagChangeView::Edit { value, .. } => Some(text_or_empty(value)),
        TagChangeView::Delete { .. } => None,
    }
}

/// What stands under a tag id after some changes, where `start` stood there before.
pub open spec fn value_after(
    start: Option<Seq<char>>,
    changes: Seq<TagChangeView>,
    id: i32,
) -> Option<Seq<char>>
    decreases changes.len(),
{
    if changes.len() == 0 {
        start
    } else if about(changes.last()) == id {
        left_by(changes.last())
    } else {
        value_after(start, changes.drop_last(), id)
    }
}

/// What stands under a tag id.
pub open spec fn value_of(tags: Seq<TagView>, id: i32) -> Option<Seq<char>> {
    if has_tag(tags, id) {
        Some(text_or_empty(latest_value(tags, id)))
    } else {
        None
    }
}

proof fn lemma_value_after_concat(
    start: Option<Seq<char>>,
    a: Seq<TagChangeView>,
    b: Seq<TagChangeView>,
    id: i32,
)
    ensures
        value_after(start, a + b, id) == value_after(value_after(start, a, id), b, id),
    decreases b.len(),
{
    if b.len() == 0 {
        assert(a + b =~= a);
    } else {
        assert((a + b).last() == b.last());
        assert((a + b).drop_last() =~= a + b.drop_last());
        lemma_value_after_concat(start, a, b.drop_last(), id);
    }
}

/// Whether a rule calls for a change about the id at a position below `n`.
spec fn calls_for(n: nat, change: spec_fn(int) -> Option<TagChangeView>, id: i32) -> bool {
    exists|i: int| 0 <= i < n && (#[trigger] change(i)) is Some && about(change(i)->0) == id
}

/// Where all changes of a rule about an id leave the same, that is what they leave together.
proof fn lemma_value_after_collected(
    start: Option<Seq<char>>,
    n: nat,
    change: spec_fn(int) -> Option<TagChangeView>,
    id: i32,
    left: Option<Seq<char>>,
)
    requires
        forall|i: int|
            0 <= i < n && (#[trigger] change(i)) is Some && about(change(i)->0) == id ==> left_by(
                change(i)->0,
            ) == left,
    ensures
        value_after(start, collected(n, change), id) == if calls_for(n, change, id) {
            left
        } else {
            start
        },
    decreases n,
{
    if n > 0 {
        let m = (n - 1) as nat;
        lemma_value_after_collected(start, m, change, id, left);
        if change(n - 1) is Some {
            let c = change(n - 1)->0;
            let front = collected(m, change);
            assert(front.push(c).drop_last() =~= front);
            if about(c) == id {
                assert(calls_for(n, change, id));
            }
        }
        assert(calls_for(m, change, id) ==> calls_for(n, change, id));
    }
}

/// Whether a rule calls for the change at a position below `n`.
spec fn yields(
    n: nat,
    change: spec_fn(int) -> Option<TagChangeView>,
    c: TagChangeView,
) -> bool {
    exists|i: int| 0 <= i < n && #[trigger] change(i) == Some(c)
}

/// What a rule collects is what it calls for.
proof fn lemma_collected_contains(
    n: nat,
    change: spec_fn(int) -> Option<TagChangeView>,
    c: TagChangeView,
)
    ensures
        collected(n, change).contains(c) <==> yields(n, change, c),
    decreases n,
{
    if n > 0 {
        let front = collected((n - 1) as nat, change);
        lemma_collected_contains((n - 1) as nat, change, c);
        if change(n - 1) is Some {
            let d = change(n - 1)->0;
            assert(front.push(d).last() == d);
            assert(forall|k: int| 0 <= k < front.len() ==> front.push(d)[k] == front[k]);
            if front.contains(c) {
                let k = choose|k: int| 0 <= k < front.len() && front[k] == c;
                assert(front.push(d)[k] == c);
            }
            if d == c {
                assert(front.push(d)[front.len() as int] == c);
            }
        }
    }
}

/// Each of the changes comes from one of the rules, at some position.
proof fn lemma_change_has_rule(current: Seq<TagView>, wanted: Seq<TagView>, k: int)
    requires
        0 <= k < changes_between(current, wanted).len(),
    ensures
        ({
            let change = changes_between(current, wanted)[k];
            ||| yields(current.len(), repeat_at(current), change)
            ||| yields(current.len(), removal_at(current, wanted), change)
            ||| yields(wanted.len(), addition_at(current, wanted), change)
            ||| yields(current.len(), edit_at(current, wanted), change)
        }),
{
    let n = current.len();
    let m = wanted.len();
    let a = collected(n, repeat_at(current));
    let b = collected(n, removal_at(current, wanted));
    let c = collected(m, addition_at(current, wanted));
    let d = collected(n, edit_at(current, wanted));
    let change = changes_between(current, wanted)[k];
    lemma_collected_contains(n, repeat_at(current), change);
    lemma_collected_contains(n, removal_at(current, wanted), change);
    lemma_collected_contains(m, addition_at(current, wanted), change);
    lemma_collected_contains(n, edit_at(current, wanted), change);
    if k < a.len() {
        assert(a[k] == change);
    } else if k < a.len() + b.len() {
        assert(b[k - a.len()] == change);
    } else if k < a.len() + b.len() + c.len() {
        assert(c[k - a.len() - b.len()] == change);
    } else {
        assert(d[k - a.len() - b.len() - c.len()] == change);
    }
}

/// The changes give a monitor what is wanted: under a tag id they leave the value that is wanted,
/// and nothing where the tag is not wanted. The exception is a tag that the monitor carries more
/// than once and that is wanted with the value of its last copy: it is deleted and not added again.
pub proof fn law_changes_reach_wanted(current: Seq<TagView>, wanted: Seq<TagView>, id: i32)
    requires
        !(is_repeated(current, id) && has_tag(wanted, id) && latest_value(current, id)
            == latest_value(wanted, id)),
    ensures
        value_after(value_of(current, id), changes_between(current, wanted), id) == value_of(
            wanted,
            id,
        ),
{
    lemma_latest(current, id);
    lemma_latest(wanted, id);
    let start = value_of(current, id);
    let n = current.len();
    let m = wanted.len();
    let repeat = repeat_at(current);
    let removal = removal_at(current, wanted);
    let addition = addition_at(current, wanted);
    let edit = edit_at(current, wanted);
    let a = collected(n, repeat);
    let b = collected(n, removal);
    let c = collected(m, addition);
    let d = collected(n, edit);
    lemma_value_after_concat(start, a + b + c, d, id);
    lemma_value_after_concat(start, a + b, c, id);
    lemma_value_after_concat(start, a, b, id);

    lemma_value_after_collected(start, n, repeat, id, None);
    assert(calls_for(n, repeat, id) <==> is_repeated(current, id)) by {
        if is_repeated(current, id) {
            let i = choose|i: int|
                0 <= i < n && (#[trigger] current[i]).tag_id == Some(id) && is_second(current, i);
            assert(repeat(i) is Some);
        }
    }
    let after_a = if calls_for(n, repeat, id) { None } else { start };

    lemma_value_after_collected(after_a, n, removal, id, None);
    assert(calls_for(n, removal, id) <==> has_tag(current, id) && !has_tag(wanted, id)
        && !is_repeated(current, id)) by {
        if has_tag(current, id) && !has_tag(wanted, id) && !is_repeated(current, id) {
            assert(removal(latest(current, id)) is Some);
        }
    }
    let after_b = if calls_for(n, removal, id) { None } else { after_a };

    lemma_value_after_collected(after_b, m, addition, id, value_of(wanted, id));
    assert(calls_for(m, addition, id) <==> has_tag(wanted, id) && !has_tag(current, id)) by {
        if has_tag(wanted, id) && !has_tag(current, id) {
            assert(addition(latest(wanted, id)) is Some);
        }
    }
    let after_c = if calls_for(m, addition, id) { value_of(wanted, id) } else { after_b };

    lemma_value_after_collected(after_c, n, edit, id, value_of(wanted, id));
    assert(calls_for(n, edit, id) <==> has_tag(wanted, id) && has_tag(current, id) && latest_value(
        current,
        id,
    ) != latest_value(wanted, id)) by {
        if has_tag(wanted, id) && has_tag(current, id) && latest_value(current, id)
            != latest_value(wanted, id) {
            assert(edit(latest(current, id)) is Some);
        }
    }
}

/// A tag that the monitor carries once, with the value that is wanted, is left alone.
pub proof fn law_settled_tag_is_left_alone(current: Seq<TagView>, wanted: Seq<TagView>, id: i32)
    requires
        !is_repeated(current, id),
        has_tag(current, id),
        has_tag(wanted, id),
        latest_value(current, id) == latest_value(wanted, id),
    ensures
        forall|k: int|
            0 <= k < changes_between(current, wanted).len() ==> about(
                #[trigger] changes_between(current, wanted)[k],
            ) != id,
{
    let all = changes_between(current, wanted);
    assert forall|k: int| 0 <= k < all.len() implies about(#[trigger] all[k]) != id by {
        lemma_change_has_rule(current, wanted, k);
    }
}

/// Where no tag is carried twice, tags that are as wanted call for no change.
pub proof fn law_no_change_when_settled(tags: Seq<TagView>)
    requires
        forall|id: i32| !is_repeated(tags, id),
    ensures
        changes_between(tags, tags).len() == 0,
{
    let all = changes_between(tags, tags);
    if all.len() > 0 {
        let id = about(all[0]);
        if has_tag(tags, id) {
            law_settled_tag_is_left_alone(tags, tags, id);
        } else {
            lemma_latest(tags, id);
            lemma_change_has_rule(tags, tags, 0);
        }
    }
}

/// Of a tag that the monitor carries more than once, the second copy is deleted, and no deletion
/// names another one.
pub proof fn law_repeat_loses_second_copy(current: Seq<TagView>, wanted: Seq<TagView>, i: int)
    requires
        0 <= i < current.len(),
        current[i].tag_id is Some,
        is_second(current, i),
    ensures
        changes_between(current, wanted).contains(
            TagChangeView::Delete { tag_id: current[i].tag_id->0, value: current[i].value },
        ),
        forall|k: int|
            0 <= k < changes_between(current, wanted).len() && (#[trigger] changes_between(
                current,
                wanted,
            )[k]) is Delete && about(changes_between(current, wanted)[k]) == current[i].tag_id->0
                ==> changes_between(current, wanted)[k] == (TagChangeView::Delete {
                tag_id: current[i].tag_id->0,
                value: current[i].value,
            }),
{
    let id = current[i].tag_id->0;
    let n = current.len();
    let all = changes_between(current, wanted);
    let deletion = TagChangeView::Delete { tag_id: id, value: current[i].value };
    let deletions = collected(n, repeat_at(current));
    lemma_collected_contains(n, repeat_at(current), deletion);
    assert(repeat_at(current)(i) == Some(deletion));
    let at = choose|k: int| 0 <= k < deletions.len() && deletions[k] == deletion;
    assert(all[at] == deletion);
    assert forall|k: int| 0 <= k < all.len() && (#[trigger] all[k]) is Delete && about(all[k])
        == id implies all[k] == deletion by {
        let change = all[k];
        lemma_change_has_rule(current, wanted, k);
        assert(is_repeated(current, id));
        if yields(n, repeat_at(current), change) {
            let j = choose|j: int| 0 <= j < n && #[trigger] repeat_at(current)(j) == Some(change);
            lemma_second_is_one(current, i, j);
        }
    }
}

/// Only one tag is the second of its id.
proof fn lemma_second_is_one(tags: Seq<TagView>, i: int, j: int)
    requires
        0 <= i < tags.len(),
        0 <= j < tags.len(),
        tags[i].tag_id == tags[j].tag_id,
        is_second(tags, i),
        is_second(tags, j),
    ensures
        i == j,
{
    let first_i = choose|k: int|
        0 <= k < i && (#[trigger] tags[k]).tag_id == tags[i].tag_id && forall|l: int|
            0 <= l < i && (#[trigger] tags[l]).tag_id == tags[i].tag_id ==> l == k;
    let first_j = choose|k: int|
        0 <= k < j && (#[trigger] tags[k]).tag_id == tags[j].tag_id && forall|l: int|
            0 <= l < j && (#[trigger] tags[l]).tag_id == tags[j].tag_id ==> l == k;
    if i < j {
        assert(tags[i].tag_id == tags[j].tag_id);
        assert(tags[first_i].tag_id == tags[j].tag_id);
    } else if j < i {
        assert(tags[j].tag_id == tags[i].tag_id);
        assert(tags[first_j].tag_id == tags[i].tag_id);
    }
}

/// Whether the tag at `i` is the last one with the id.
pub open spec fn last_at(tags: Seq<TagView>, id: i32, i: int) -> bool {
    &&& 0 <= i < tags.len()
    &&& tags[i].tag_id == Some(id)
    &&& forall|k: int| i < k < tags.len() ==> (#[trigger] tags[k]).tag_id != Some(id)
}

/// Whether no tag has the id.
pub open spec fn absent(tags: Seq<TagView>, id: i32) -> bool {
    forall|k: int| 0 <= k < tags.len() ==> (#[trigger] tags[k]).tag_id != Some(id)
}

/// Whether the tag at `i` is the only one with the id.
pub open spec fn only_at(tags: Seq<TagView>, id: i32, i: int) -> bool {
    &&& 0 <= i < tags.len()
    &&& tags[i].tag_id == Some(id)
    &&& forall|k: int| 0 <= k < tags.len() && k != i ==> (#[trigger] tags[k]).tag_id != Some(id)
}

/// Whether the tag at `i` is the second one with the id, the first one standing at `j`.
pub open spec fn second_at(tags: Seq<TagView>, id: i32, j: int, i: int) -> bool {
    &&& 0 <= j < i < tags.len()
    &&& tags[j].tag_id == Some(id)
    &&& tags[i].tag_id == Some(id)
    &&& forall|k: int| 0 <= k < i && k != j ==> (#[trigger] tags[k]).tag_id != Some(id)
}

/// A tag id stands for the last tag with that id, and for its value; where no tag has the id, it stands
/// for nothing.
pub proof fn law_last_tag_counts(tags: Seq<TagView>, id: i32, i: int)
    ensures
        last_at(tags, id, i) ==> {
            &&& has_tag(tags, id)
            &&& latest(tags, id) == i
            &&& latest_value(tags, id) == tags[i].value
            &&& tags[i].value matches Some(text) ==> value_of(tags, id) == Some(text)
            &&& tags[i].value is None ==> value_of(tags, id) == Some(Seq::<char>::empty())
        },
        absent(tags, id) <==> !has_tag(tags, id),
        absent(tags, id) ==> value_of(tags, id) is None,
{
    lemma_latest(tags, id);
    let at = latest(tags, id);
    if last_at(tags, id, i) {
        if at < i {
            assert(tags[i].tag_id != Some(id));
        } else if i < at {
            assert(tags[at].tag_id != Some(id));
        }
    }
    if at >= 0 {
        assert(tags[at].tag_id == Some(id));
    }
}

/// A tag id is repeated exactly if it stands at two positions or more.
pub proof fn law_repeated_stands_twice(tags: Seq<TagView>, id: i32)
    ensures
        is_repeated(tags, id) <==> exists|a: int, b: int|
            0 <= a < b < tags.len() && (#[trigger] tags[a]).tag_id == Some(id) && (
            #[trigger] tags[b]).tag_id == Some(id),
{
    if is_repeated(tags, id) {
        let i = choose|i: int|
            0 <= i < tags.len() && (#[trigger] tags[i]).tag_id == Some(id) && is_second(tags, i);
        let j = choose|j: int|
            0 <= j < i && (#[trigger] tags[j]).tag_id == tags[i].tag_id && forall|k: int|
                0 <= k < i && (#[trigger] tags[k]).tag_id == tags[i].tag_id ==> k == j;
        assert(tags[j].tag_id == Some(id));
    }
    if exists|a: int, b: int|
        0 <= a < b < tags.len() && (#[trigger] tags[a]).tag_id == Some(id) && (
        #[trigger] tags[b]).tag_id == Some(id) {
        let (a, b) = choose|a: int, b: int|
            0 <= a < b < tags.len() && (#[trigger] tags[a]).tag_id == Some(id) && (
            #[trigger] tags[b]).tag_id == Some(id);
        lemma_twice_is_repeated(tags, id, a, b);
    }
}

/// An id that stands at two positions has a second one.
proof fn lemma_twice_is_repeated(tags: Seq<TagView>, id: i32, a: int, b: int)
    requires
        0 <= a < b < tags.len(),
        tags[a].tag_id == Some(id),
        tags[b].tag_id == Some(id),
    ensures
        is_repeated(tags, id),
    decreases b,
{
    if exists|k: int| 0 <= k < b && k != a && (#[trigger] tags[k]).tag_id == Some(id) {
        let k = choose|k: int| 0 <= k < b && k != a && (#[trigger] tags[k]).tag_id == Some(id);
        if k < a {
            lemma_twice_is_repeated(tags, id, k, a);
        } else {
            lemma_twice_is_repeated(tags, id, a, k);
        }
    } else {
        assert(is_second(tags, b)) by {
            assert(tags[a].tag_id == tags[b].tag_id);
        }
    }
}

/// The second one with an id by position is the second one with its id.
proof fn lemma_second_at(tags: Seq<TagView>, id: i32, i: int)
    requires
        0 <= i < tags.len(),
        tags[i].tag_id == Some(id),
    ensures
        is_second(tags, i) <==> exists|j: int| #[trigger] second_at(tags, id, j, i),
{
    if is_second(tags, i) {
        let j = choose|j: int|
            0 <= j < i && (#[trigger] tags[j]).tag_id == tags[i].tag_id && forall|k: int|
                0 <= k < i && (#[trigger] tags[k]).tag_id == tags[i].tag_id ==> k == j;
        assert(second_at(tags, id, j, i));
    }
    if exists|j: int| #[trigger] second_at(tags, id, j, i) {
        let j = choose|j: int| #[trigger] second_at(tags, id, j, i);
        assert(tags[j].tag_id == tags[i].tag_id);
    }
}

/// What is among the changes is what one of the rules calls for.
proof fn lemma_changes_contain(
    current: Seq<TagView>,
    wanted: Seq<TagView>,
    change: TagChangeView,
)
    ensures
        changes_between(current, wanted).contains(change) <==> {
            ||| yields(current.len(), repeat_at(current), change)
            ||| yields(current.len(), removal_at(current, wanted), change)
            ||| yields(wanted.len(), addition_at(current, wanted), change)
            ||| yields(current.len(), edit_at(current, wanted), change)
        },
{
    let n = current.len();
    let m = wanted.len();
    let a = collected(n, repeat_at(current));
    let b = collected(n, removal_at(current, wanted));
    let c = collected(m, addition_at(current, wanted));
    let d = collected(n, edit_at(current, wanted));
    let all = changes_between(current, wanted);
    lemma_collected_contains(n, repeat_at(current), change);
    lemma_collected_contains(n, removal_at(current, wanted), change);
    lemma_collected_contains(m, addition_at(current, wanted), change);
    lemma_collected_contains(n, edit_at(current, wanted), change);
    if all.contains(change) {
        let k = choose|k: int| 0 <= k < all.len() && all[k] == change;
        lemma_change_has_rule(current, wanted, k);
    }
    if a.contains(change) {
        let k = choose|k: int| 0 <= k < a.len() && a[k] == change;
        assert(all[k] == change);
    }
    if b.contains(change) {
        let k = choose|k: int| 0 <= k < b.len() && b[k] == change;
        assert(all[a.len() + k] == change);
    }
    if c.contains(change) {
        let k = choose|k: int| 0 <= k < c.len() && c[k] == change;
        assert(all[a.len() + b.len() + k] == change);
    }
    if d.contains(change) {
        let k = choose|k: int| 0 <= k < d.len() && d[k] == change;
        assert(all[a.len() + b.len() + c.len() + k] == change);
    }
}

/// A tag is taken off with a value exactly if it is the second copy of a tag that the monitor carries
/// more than once, or a tag that it carries once and that is not wanted; and the value is the one that
/// it has there.
pub proof fn law_deletions(
    current: Seq<TagView>,
    wanted: Seq<TagView>,
    id: i32,
    value: Option<Seq<char>>,
)
    ensures
        changes_between(current, wanted).contains(TagChangeView::Delete { tag_id: id, value }) <==> {
            ||| exists|j: int, i: int| #[trigger]
                second_at(current, id, j, i) && current[i].value == value
            ||| absent(wanted, id) && exists|i: int| #[trigger]
                only_at(current, id, i) && current[i].value == value
        },
{
    let change = TagChangeView::Delete { tag_id: id, value };
    let n = current.len();
    lemma_changes_contain(current, wanted, change);
    lemma_latest(current, id);
    law_last_tag_counts(wanted, id, 0);
    law_repeated_stands_twice(current, id);
    if yields(n, repeat_at(current), change) {
        let i = choose|i: int| 0 <= i < n && #[trigger] repeat_at(current)(i) == Some(change);
        lemma_second_at(current, id, i);
        let j = choose|j: int| #[trigger] second_at(current, id, j, i);
        assert(second_at(current, id, j, i) && current[i].value == value);
    }
    if exists|j: int, i: int| #[trigger] second_at(current, id, j, i) && current[i].value == value {
        let (j, i) = choose|j: int, i: int| #[trigger]
            second_at(current, id, j, i) && current[i].value == value;
        lemma_second_at(current, id, i);
        assert(repeat_at(current)(i) == Some(change));
    }
    if yields(n, removal_at(current, wanted), change) {
        let i = choose|i: int|
            0 <= i < n && #[trigger] removal_at(current, wanted)(i) == Some(change);
        assert forall|k: int| 0 <= k < n && k != i implies (#[trigger] current[k]).tag_id != Some(
            id,
        ) by {
            if current[k].tag_id == Some(id) {
                assert(k < i);
                assert(current[i].tag_id == Some(id));
            }
        }
        assert(only_at(current, id, i) && current[i].value == value);
    }
    if absent(wanted, id) && exists|i: int| #[trigger]
        only_at(current, id, i) && current[i].value == value {
        let i = choose|i: int| #[trigger] only_at(current, id, i) && current[i].value == value;
        assert(last_at(current, id, i));
        law_last_tag_counts(current, id, i);
        assert(!is_repeated(current, id));
        assert(removal_at(current, wanted)(i) == Some(change));
    }
}

/// A tag is put on with a value exactly if the monitor does not carry it and it is wanted, the last one
/// with its id having that value.
pub proof fn law_additions(
    current: Seq<TagView>,
    wanted: Seq<TagView>,
    id: i32,
    value: Option<Seq<char>>,
)
    ensures
        changes_between(current, wanted).contains(TagChangeView::Add { tag_id: id, value }) <==> {
            &&& absent(current, id)
            &&& exists|j: int| #[trigger] last_at(wanted, id, j) && wanted[j].value == value
        },
{
    let change = TagChangeView::Add { tag_id: id, value };
    let m = wanted.len();
    lemma_changes_contain(current, wanted, change);
    lemma_latest(wanted, id);
    law_last_tag_counts(current, id, 0);
    if yields(m, addition_at(current, wanted), change) {
        let j = choose|j: int|
            0 <= j < m && #[trigger] addition_at(current, wanted)(j) == Some(change);
        assert(last_at(wanted, id, j) && wanted[j].value == value);
    }
    if absent(current, id) && exists|j: int| #[trigger]
        last_at(wanted, id, j) && wanted[j].value == value {
        let j = choose|j: int| #[trigger] last_at(wanted, id, j) && wanted[j].value == value;
        law_last_tag_counts(wanted, id, j);
        assert(addition_at(current, wanted)(j) == Some(change));
    }
}

/// The value of a tag is set exactly if the monitor carries the tag and it is wanted, the last ones with
/// its id differing in their values; and it is set to the wanted one.
pub proof fn law_edits(
    current: Seq<TagView>,
    wanted: Seq<TagView>,
    id: i32,
    value: Option<Seq<char>>,
)
    ensures
        changes_between(current, wanted).contains(TagChangeView::Edit { tag_id: id, value }) <==> {
            &&& exists|i: int| #[trigger] last_at(current, id, i) && current[i].value != value
            &&& exists|j: int| #[trigger] last_at(wanted, id, j) && wanted[j].value == value
        },
{
    let change = TagChangeView::Edit { tag_id: id, value };
    let n = current.len();
    lemma_changes_contain(current, wanted, change);
    lemma_latest(current, id);
    lemma_latest(wanted, id);
    if yields(n, edit_at(current, wanted), change) {
        let i = choose|i: int| 0 <= i < n && #[trigger] edit_at(current, wanted)(i) == Some(change);
        let j = latest(wanted, id);
        assert(last_at(current, id, i) && current[i].value != value);
        assert(last_at(wanted, id, j) && wanted[j].value == value);
    }
    if (exists|i: int| #[trigger] last_at(current, id, i) && current[i].value != value)
        && exists|j: int| #[trigger] last_at(wanted, id, j) && wanted[j].value == value {
        let i = choose|i: int| #[trigger] last_at(current, id, i) && current[i].value != value;
        let j = choose|j: int| #[trigger] last_at(wanted, id, j) && wanted[j].value == value;
        law_last_tag_counts(current, id, i);
        law_last_tag_counts(wanted, id, j);
        assert(edit_at(current, wanted)(i) == Some(change));
    }
}

/// Where a rule has one change for an id at most, so has what it collects.
proof fn lemma_collected_once(n: nat, change: spec_fn(int) -> Option<TagChangeView>)
    requires
        forall|i: int, j: int|
            0 <= i < j < n && (#[trigger] change(i)) is Some && (#[trigger] change(j)) is Some
                ==> about(change(i)->0) != about(change(j)->0),
    ensures
        forall|a: int, b: int|
            0 <= a < b < collected(n, change).len() ==> about(
                #[trigger] collected(n, change)[a],
            ) != about(#[trigger] collected(n, change)[b]),
    decreases n,
{
    if n > 0 {
        let front = collected((n - 1) as nat, change);
        lemma_collected_once((n - 1) as nat, change);
        if change(n - 1) is Some {
            let last = change(n - 1)->0;
            let all = front.push(last);
            assert forall|a: int, b: int| 0 <= a < b < all.len() implies about(#[trigger] all[a])
                != about(#[trigger] all[b]) by {
                if b == front.len() {
                    lemma_collected_contains((n - 1) as nat, change, front[a]);
                    assert(front.contains(front[a]));
                    let i = choose|i: int|
                        0 <= i < n - 1 && #[trigger] change(i) == Some(front[a]);
                    assert(change(i) is Some);
                } else {
                    assert(about(front[a]) != about(front[b]));
                }
            }
        }
    }
}

/// How late a kind of change is made.
pub open spec fn turn(change: TagChangeView) -> int {
    match change {
        TagChangeView::Delete { .. } => 0,
        TagChangeView::Add { .. } => 1,
        TagChangeView::Edit { .. } => 2,
    }
}

/// Tags are taken off first, then put on, then set; and no tag is taken off twice, put on twice or set
/// twice.
pub proof fn law_changes_in_turn_and_once(
    current: Seq<TagView>,
    wanted: Seq<TagView>,
    a: int,
    b: int,
)
    requires
        0 <= a < b < changes_between(current, wanted).len(),
    ensures
        ({
            let first = changes_between(current, wanted)[a];
            let second = changes_between(current, wanted)[b];
            &&& turn(first) <= turn(second)
            &&& turn(first) == turn(second) ==> about(first) != about(second)
        }),
{
    let n = current.len();
    let m = wanted.len();
    let repeat = repeat_at(current);
    let removal = removal_at(current, wanted);
    let addition = addition_at(current, wanted);
    let edit = edit_at(current, wanted);
    let p = collected(n, repeat);
    let q = collected(n, removal);
    let r = collected(m, addition);
    let s = collected(n, edit);
    let all = changes_between(current, wanted);
    assert forall|i: int, j: int|
        0 <= i < j < n && (#[trigger] repeat(i)) is Some && (#[trigger] repeat(j)) is Some implies about(
        repeat(i)->0,
    ) != about(repeat(j)->0) by {
        if current[i].tag_id == current[j].tag_id {
            lemma_second_is_one(current, i, j);
        }
    }
    lemma_collected_once(n, repeat);
    lemma_collected_once(n, removal);
    lemma_collected_once(m, addition);
    lemma_collected_once(n, edit);
    lemma_part(current, wanted, a);
    lemma_part(current, wanted, b);
    if b < p.len() {
        assert(about(p[a]) != about(p[b]));
    } else if b < p.len() + q.len() {
        if a >= p.len() {
            assert(about(q[a - p.len()]) != about(q[b - p.len()]));
        }
    } else if b < p.len() + q.len() + r.len() {
        if a >= p.len() + q.len() {
            assert(about(r[a - p.len() - q.len()]) != about(r[b - p.len() - q.len()]));
        }
    } else if a >= p.len() + q.len() + r.len() {
        let k = p.len() + q.len() + r.len();
        assert(about(s[a - k]) != about(s[b - k]));
    }
}

/// Which of the four parts of the changes a position lies in, and what that says of the change.
proof fn lemma_part(current: Seq<TagView>, wanted: Seq<TagView>, k: int)
    requires
        0 <= k < changes_between(current, wanted).len(),
    ensures
        ({
            let p = collected(current.len(), repeat_at(current));
            let q = collected(current.len(), removal_at(current, wanted));
            let r = collected(wanted.len(), addition_at(current, wanted));
            let s = collected(current.len(), edit_at(current, wanted));
            let change = changes_between(current, wanted)[k];
            if k < p.len() {
                change == p[k] && change is Delete && is_repeated(current, about(change))
            } else if k < p.len() + q.len() {
                change == q[k - p.len()] && change is Delete && !is_repeated(current, about(change))
            } else if k < p.len() + q.len() + r.len() {
                change == r[k - p.len() - q.len()] && change is Add
            } else {
                change == s[k - p.len() - q.len() - r.len()] && change is Edit
            }
        }),
{
    let n = current.len();
    let m = wanted.len();
    let p = collected(n, repeat_at(current));
    let q = collected(n, removal_at(current, wanted));
    let r = collected(m, addition_at(current, wanted));
    let s = collected(n, edit_at(current, wanted));
    let change = changes_between(current, wanted)[k];
    lemma_collected_contains(n, repeat_at(current), change);
    lemma_collected_contains(n, removal_at(current, wanted), change);
    lemma_collected_contains(m, addition_at(current, wanted), change);
    lemma_collected_contains(n, edit_at(current, wanted), change);
    if k < p.len() {
        assert(p[k] == change);
        let i = choose|i: int| 0 <= i < n && #[trigger] repeat_at(current)(i) == Some(change);
        assert(current[i].tag_id == Some(about(change)) && is_second(current, i));
    } else if k < p.len() + q.len() {
        assert(q[k - p.len()] == change);
    } else if k < p.len() + q.len() + r.len() {
        assert(r[k - p.len() - q.len()] == change);
    } else {
        assert(s[k - p.len() - q.len() - r.len()] == change);
    }
}

/// Where the monitor carries no tag twice and under every tag id has what is wanted there, no change is
/// called for, whatever else the tags say.
pub proof fn law_no_change_where_alike(current: Seq<TagView>, wanted: Seq<TagView>)
    requires
        forall|id: i32| !is_repeated(current, id),
        forall|id: i32| #[trigger] has_tag(current, id) <==> has_tag(wanted, id),
        forall|id: i32| #[trigger]
            has_tag(current, id) ==> latest_value(current, id) == latest_value(wanted, id),
    ensures
        changes_between(current, wanted).len() == 0,
{
    let all = changes_between(current, wanted);
    if all.len() > 0 {
        let id = about(all[0]);
        if has_tag(current, id) {
            law_settled_tag_is_left_alone(current, wanted, id);
        } else {
            lemma_latest(current, id);
            lemma_latest(wanted, id);
            lemma_change_has_rule(current, wanted, 0);
        }
    }
}

/// Where the tags of a monitor are known, they are what the changes start from.
pub proof fn law_known_tags_are_compared(current: Seq<TagView>, wanted: Seq<TagView>)
    ensures
        changes_to(Some(current), wanted) == changes_between(current, wanted),
{
}

/// Where the tags of a monitor are not known, every wanted tag that has an id is put on, in order and
/// with its value; one without id is not.
pub proof fn law_unknown_gets_every_tag(wanted: Seq<TagView>, tag: TagView)
    ensures
        changes_to(None, Seq::empty()).len() == 0,
        tag.tag_id matches Some(id) ==> changes_to(None, wanted.push(tag)) == changes_to(
            None,
            wanted,
        ).push(TagChangeView::Add { tag_id: id, value: tag.value }),
        tag.tag_id is None ==> changes_to(None, wanted.push(tag)) == changes_to(None, wanted),
{
    let longer = wanted.push(tag);
    lemma_fresh_prefix(longer, wanted, wanted.len());
    assert(longer[wanted.len() as int] == tag);
}

/// Only the tags up to a position bear on what is put on for them.
proof fn lemma_fresh_prefix(longer: Seq<TagView>, shorter: Seq<TagView>, n: nat)
    requires
        n <= shorter.len() <= longer.len(),
        forall|k: int| 0 <= k < shorter.len() ==> #[trigger] longer[k] == shorter[k],
    ensures
        collected(n, fresh_at(longer)) == collected(n, fresh_at(shorter)),
    decreases n,
{
    if n > 0 {
        lemma_fresh_prefix(longer, shorter, (n - 1) as nat);
        assert(longer[n - 1] == shorter[n - 1]);
    }
}

/// The tags that a monitor is known to have are those given.
pub proof fn law_known_tags(tags: &Vec<Tag>)
    ensures
        known(Some(tags)) == Some(tag_views(tags@)),
        known(None) is None,
{
}

/// Several changes that count as the same are the same in order: each of the same kind, about the same
/// tag id and with the same value.
pub proof fn law_changes_view_is_faithful(a: Seq<TagChange>, b: Seq<TagChange>)
    requires
        change_views(a) == change_views(b),
    ensures
        a.len() == b.len(),
        forall|i: int|
            0 <= i < a.len() ==> match (#[trigger] a[i], b[i]) {
                (TagChange::Add { tag_id: x, value: v }, TagChange::Add { tag_id: y, value: w }) => x
                    == y && same_option(v, w),
                (TagChange::Edit { tag_id: x, value: v }, TagChange::Edit { tag_id: y, value: w }) => x
                    == y && same_option(v, w),
                (
                    TagChange::Delete { tag_id: x, value: v },
                    TagChange::Delete { tag_id: y, value: w },
                ) => x == y && same_option(v, w),
                _ => false,
            },
        forall|i: int|
            0 <= i < a.len() ==> (((#[trigger] a[i]) is Add <==> change_views(a)[i] is Add) && (a[i] is Edit
                <==> change_views(a)[i] is Edit)),
{
    assert(change_views(a).len() == a.len());
    assert(change_views(b).len() == b.len());
    assert forall|i: int| 0 <= i < a.len() implies a[i]@ == (#[trigger] b[i])@ by {
        assert(change_views(a)[i] == a[i]@);
        assert(change_views(b)[i] == b[i]@);
    }
    assert forall|i: int| 0 <= i < a.len() implies (#[trigger] a[i])@ == b[i]@ by {
        assert(a[i]@ == (b[i])@);
    }
}

} // verus!
