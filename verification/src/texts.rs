use vstd::prelude::*;

verus! {

/// A message that can be requested: its id, the frames it stays on screen,
/// and the frames left of its current showing. Its text, font and position
/// are kept by the drawing side, in the same order.
#[derive(Clone, Copy, Debug, PartialEq, Eq, Structural)]
pub struct text_time {
    pub text_id: i32,
    pub time_static: i32,
    pub time_count: i32,
}

/// One frame of showing: the count-down drops by one, and is wound up to
/// the full time when it reaches zero.
pub open spec fn tick(t: text_time) -> text_time {
    if t.time_count - 1 == 0 {
        text_time { text_id: t.text_id, time_static: t.time_static, time_count: t.time_static }
    } else {
        text_time {
            text_id: t.text_id,
            time_static: t.time_static,
            time_count: (t.time_count - 1) as i32,
        }
    }
}

/// The count-down of `t` runs out in this frame of showing.
pub open spec fn expires(t: text_time) -> bool {
    t.time_count == 1
}

/// Every message with id `id` shows for one frame.
pub open spec fn tick_matching(texts: Seq<text_time>, id: i32) -> Seq<text_time> {
    Seq::new(texts.len(), |k: int| if texts[k].text_id == id { tick(texts[k]) } else { texts[k] })
}

/// How many messages with id `id` run out in this frame.
pub open spec fn expiring(texts: Seq<text_time>, id: i32) -> nat
    decreases texts.len(),
{
    if texts.len() == 0 {
        0
    } else {
        expiring(texts.drop_last(), id) + if texts.last().text_id == id && expires(texts.last()) {
            1nat
        } else {
            0nat
        }
    }
}

/// The position of the first `v` in `s` (meaningful when `s` holds `v`).
pub open spec fn first_index(s: Seq<i32>, v: i32) -> int {
    choose|i: int| 0 <= i < s.len() && s[i] == v && forall|k: int| 0 <= k < i ==> s[k] != v
}

/// A list holding `v` has a first `v`, which `first_index` names.
pub proof fn lemma_first_index(s: Seq<i32>, v: i32)
    requires
        s.contains(v),
    ensures
        0 <= first_index(s, v) < s.len(),
        s[first_index(s, v)] == v,
        forall|k: int| 0 <= k < first_index(s, v) ==> s[k] != v,
    decreases s.len(),
{
    if s.drop_last().contains(v) {
        lemma_first_index(s.drop_last(), v);
        let i = first_index(s.drop_last(), v);
        assert(s[i] == s.drop_last()[i]);
        assert forall|k: int| 0 <= k < i implies s[k] != v by {
            assert(s[k] == s.drop_last()[k]);
        }
        assert(0 <= i < s.len() && s[i] == v && forall|k: int| 0 <= k < i ==> s[k] != v);
    } else {
        let i = s.len() - 1;
        let w = choose|w: int| 0 <= w < s.len() && s[w] == v;
        if w < i {
            assert(s.drop_last()[w] == v);
        }
        assert forall|k: int| 0 <= k < i implies s[k] != v by {
            if s[k] == v {
                assert(s.drop_last()[k] == v);
            }
        }
        assert(0 <= i < s.len() && s[i] == v && forall|k: int| 0 <= k < i ==> s[k] != v);
    }
}

/// `s` without its first `v` (unchanged when there is none).
pub open spec fn remove_first(s: Seq<i32>, v: i32) -> Seq<i32> {
    if s.contains(v) {
        s.remove(first_index(s, v))
    } else {
        s
    }
}

/// `s` after removing the first `v` `n` times.
pub open spec fn remove_first_n(s: Seq<i32>, v: i32, n: nat) -> Seq<i32>
    decreases n,
{
    if n == 0 {
        s
    } else {
        remove_first(remove_first_n(s, v, (n - 1) as nat), v)
    }
}

/// The messages after one frame in which the ids of `shown` are requested,
/// one request after the other.
pub open spec fn texts_after(texts: Seq<text_time>, shown: Seq<i32>) -> Seq<text_time>
    decreases shown.len(),
{
    if shown.len() == 0 {
        texts
    } else {
        tick_matching(texts_after(texts, shown.drop_last()), shown.last())
    }
}

/// The requests after that frame: each message that runs out takes its id
/// out of the requests once (its first occurrence).
pub open spec fn ids_after(texts: Seq<text_time>, ids: Seq<i32>, shown: Seq<i32>) -> Seq<i32>
    decreases shown.len(),
{
    if shown.len() == 0 {
        ids
    } else {
        let before = texts_after(texts, shown.drop_last());
        remove_first_n(
            ids_after(texts, ids, shown.drop_last()),
            shown.last(),
            expiring(before, shown.last()),
        )
    }
}

/// No count-down of that frame goes below `i32::MIN`.
pub open spec fn texts_fit(texts: Seq<text_time>, shown: Seq<i32>) -> bool
    decreases shown.len(),
{
    if shown.len() == 0 {
        true
    } else {
        let before = texts_after(texts, shown.drop_last());
        &&& texts_fit(texts, shown.drop_last())
        &&& forall|k: int|
            0 <= k < before.len() && (#[trigger] before[k]).text_id == shown.last()
                ==> before[k].time_count > i32::MIN
    }
}

/// The positions of the messages with id `id`, in order.
pub open spec fn matching_indices(texts: Seq<text_time>, id: i32) -> Seq<usize>
    decreases texts.len(),
{
    if texts.len() == 0 {
        Seq::empty()
    } else {
        let prev = matching_indices(texts.drop_last(), id);
        if texts.last().text_id == id {
            prev.push((texts.len() - 1) as usize)
        } else {
            prev
        }
    }
}

/// The positions of the messages drawn in that frame: for each request in
/// turn, every message with its id.
pub open spec fn drawn_indices(texts: Seq<text_time>, shown: Seq<i32>) -> Seq<usize>
    decreases shown.len(),
{
    if shown.len() == 0 {
        Seq::empty()
    } else {
        drawn_indices(texts, shown.drop_last()) + matching_indices(texts, shown.last())
    }
}

/// Showing keeps every message's id and full time.
pub proof fn lemma_texts_after_keeps_ids(texts: Seq<text_time>, shown: Seq<i32>)
    ensures
        texts_after(texts, shown).len() == texts.len(),
        forall|k: int|
            0 <= k < texts.len() ==> {
                &&& (#[trigger] texts_after(texts, shown)[k]).text_id == texts[k].text_id
                &&& texts_after(texts, shown)[k].time_static == texts[k].time_static
            },
    decreases shown.len(),
{
    if shown.len() > 0 {
        lemma_texts_after_keeps_ids(texts, shown.drop_last());
    }
}

/// Removes the first `id` from `ids`, if there is one.
fn remove_first_id(ids: &mut Vec<i32>, id: i32)
    ensures
        final(ids)@ == remove_first(old(ids)@, id),
{
    let mut i: usize = 0;
    while i < ids.len()
        invariant
            i <= ids.len(),
            ids@ == old(ids)@,
            forall|k: int| 0 <= k < i ==> ids@[k] != id,
        decreases ids.len() - i,
    {
        if ids[i] == id {
            proof {
                assert(ids@.contains(id));
                let j = first_index(ids@, id);
                assert(0 <= j < ids@.len() && ids@[j] == id && forall|k: int| 0 <= k < j ==> ids@[k] != id);
                if j < i {
                    assert(ids@[j] != id);
                }
                if j > i {
                    assert(ids@[i as int] != id);
                }
                assert(j == i);
            }
            ids.remove(i);
            return;
        }
        i = i + 1;
    }
    proof {
        assert(!ids@.contains(id));
    }
}

/// Shows the requested messages for one frame: for each requested id (as
/// the requests stood at the start), every message with that id is drawn
/// and its count-down drops by one; a message whose count-down runs out is
/// wound up again and its first request is taken out. Returns the
/// positions of the messages to draw, in drawing order.
pub fn manage_requested_text(text_vec: &mut Vec<text_time>, ids: &mut Vec<i32>) -> (drawn: Vec<usize>)
    requires
        texts_fit(old(text_vec)@, old(ids)@),
    ensures
        final(text_vec)@ == texts_after(old(text_vec)@, old(ids)@),
        final(ids)@ == ids_after(old(text_vec)@, old(ids)@, old(ids)@),
        drawn@ == drawn_indices(old(text_vec)@, old(ids)@),
{
    let ghost t0 = text_vec@;
    let ghost i0 = ids@;
    let shown = ids.clone();
    proof {
        assert(shown@ =~= i0);
    }
    let n = text_vec.len();
    let mut drawn: Vec<usize> = Vec::new();
    for a in 0..shown.len()
        invariant
            shown@ == i0,
            n == text_vec.len(),
            n == t0.len(),
            texts_fit(t0, i0),
            text_vec@ == texts_after(t0, i0.take(a as int)),
            ids@ == ids_after(t0, i0, i0.take(a as int)),
            drawn@ == drawn_indices(t0, i0.take(a as int)),
    {
        let id = shown[a];
        let ghost pre = i0.take(a as int);
        let ghost before = text_vec@;
        let ghost ids_before = ids@;
        let ghost drawn_before = drawn@;
        proof {
            assert(i0.take(a + 1).drop_last() =~= pre);
            assert(i0.take(a + 1).last() == id);
            lemma_texts_fit_prefix(t0, i0, (a + 1) as nat);
            lemma_texts_after_keeps_ids(t0, pre);
        }
        for b in 0..n
            invariant
                n == text_vec.len(),
                n == t0.len(),
                n == before.len(),
                before == texts_after(t0, pre),
                forall|k: int|
                    0 <= k < n && (#[trigger] before[k]).text_id == id ==> before[k].time_count
                        > i32::MIN,
                forall|k: int| 0 <= k < n ==> (#[trigger] before[k]).text_id == t0[k].text_id,
                forall|k: int|
                    0 <= k < b ==> #[trigger] text_vec@[k] == (if before[k].text_id == id {
                        tick(before[k])
                    } else {
                        before[k]
                    }),
                forall|k: int| b <= k < n ==> #[trigger] text_vec@[k] == before[k],
                ids@ == remove_first_n(ids_before, id, expiring(before.take(b as int), id)),
                drawn@ == drawn_before + matching_indices(t0.take(b as int), id),
        {
            proof {
                assert(before.take(b + 1).drop_last() =~= before.take(b as int));
                assert(t0.take(b + 1).drop_last() =~= t0.take(b as int));
            }
            let t = text_vec[b];
            if t.text_id == id {
                drawn.push(b);
                let mut nt = t;
                nt.time_count = t.time_count - 1;
                if nt.time_count == 0 {
                    nt.time_count = t.time_static;
                    remove_first_id(ids, id);
                }
                text_vec.set(b, nt);
            }
            proof {
                let e = expiring(before.take(b as int), id);
                if t.text_id == id && expires(t) {
                    assert(ids@ == remove_first_n(ids_before, id, e + 1));
                }
                assert(drawn@ =~= drawn_before + matching_indices(t0.take(b + 1), id));
            }
        }
        proof {
            assert(before.take(n as int) =~= before);
            assert(t0.take(n as int) =~= t0);
            assert(text_vec@ =~= tick_matching(before, id));
            assert(drawn@ =~= drawn_indices(t0, i0.take(a + 1)));
        }
    }
    proof {
        assert(i0.take(i0.len() as int) =~= i0);
    }
    drawn
}

/// Whether a frame of showing, with the requests `ids`, keeps every
/// count-down within `i32` (the condition of `manage_requested_text`).
pub fn texts_fit_now(texts: &Vec<text_time>, ids: &Vec<i32>) -> (ok: bool)
    ensures
        ok == texts_fit(texts@, ids@),
{
    let ghost i0 = ids@;
    let mut copy = texts.clone();
    proof {
        assert(copy@ =~= texts@);
    }
    let n = copy.len();
    for a in 0..ids.len()
        invariant
            n == copy.len(),
            n == texts@.len(),
            i0 == ids@,
            copy@ == texts_after(texts@, i0.take(a as int)),
            texts_fit(texts@, i0.take(a as int)),
    {
        let id = ids[a];
        let ghost pre = i0.take(a as int);
        let ghost before = copy@;
        proof {
            assert(i0.take(a + 1).drop_last() =~= pre);
            lemma_texts_after_keeps_ids(texts@, pre);
        }
        for b in 0..n
            invariant
                n == copy.len(),
                n == before.len(),
                before == texts_after(texts@, pre),
                i0.take(a + 1).drop_last() == pre,
                i0.take(a + 1).last() == id,
                a < i0.len(),
                i0 == ids@,
                forall|k: int|
                    0 <= k < b && (#[trigger] before[k]).text_id == id ==> before[k].time_count
                        > i32::MIN,
                forall|k: int|
                    0 <= k < b ==> #[trigger] copy@[k] == (if before[k].text_id == id {
                        tick(before[k])
                    } else {
                        before[k]
                    }),
                forall|k: int| b <= k < n ==> #[trigger] copy@[k] == before[k],
        {
            let t = copy[b];
            if t.text_id == id {
                if t.time_count == i32::MIN {
                    proof {
                        if texts_fit(texts@, i0) {
                            lemma_texts_fit_prefix(texts@, i0, (a + 1) as nat);
                            assert(before[b as int].text_id == id);
                        }
                    }
                    return false;
                }
                let mut nt = t;
                nt.time_count = t.time_count - 1;
                if nt.time_count == 0 {
                    nt.time_count = t.time_static;
                }
                copy.set(b, nt);
            }
        }
        proof {
            assert(copy@ =~= tick_matching(before, id));
        }
    }
    proof {
        assert(i0.take(i0.len() as int) =~= i0);
    }
    true
}

/// The fit of a frame covers the fit of every earlier part of it.
proof fn lemma_texts_fit_prefix(texts: Seq<text_time>, shown: Seq<i32>, len: nat)
    requires
        texts_fit(texts, shown),
        len <= shown.len(),
    ensures
        texts_fit(texts, shown.take(len as int)),
    decreases shown.len(),
{
    if len < shown.len() {
        assert(shown.drop_last().take(len as int) =~= shown.take(len as int));
        lemma_texts_fit_prefix(texts, shown.drop_last(), len);
    } else {
        assert(shown.take(len as int) =~= shown);
    }
}

/// Asks for the message `id` unless it is already asked for.
pub fn request_text(ids: &mut Vec<i32>, id: i32)
    ensures
        final(ids)@ == (if old(ids)@.contains(id) {
            old(ids)@
        } else {
            old(ids)@.push(id)
        }),
{
    if !crate::buttons::contains_id(ids, id) {
        ids.push(id);
    }
}

} // verus!
