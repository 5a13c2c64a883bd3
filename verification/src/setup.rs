use vstd::prelude::*;
use rand::Rng;
use crate::cables::{static_rect_data, static_rect_data_destination};
use crate::rules::{CABLE_COUNT, NO_OBJECT};

verus! {

broadcast use vstd::seq_lib::group_to_multiset_ensures;

/// The two colour orders of an eight-wire network cable.
#[derive(Clone, Copy, Debug, PartialEq, Eq, Structural)]
pub enum Wiring {
    T568A,
    T568B,
}

/// The wiring a round plays: the first random pick 0 gives T568B, any other T568A.
pub open spec fn wiring_for(pick: usize) -> Wiring {
    if pick == 0 {
        Wiring::T568B
    } else {
        Wiring::T568A
    }
}

/// For each cable id (pin), the index of the wire picture it shows. The
/// pictures are in T568B order; T568A swaps the orange and green pairs.
pub open spec fn texture_order_spec(w: Wiring) -> Seq<usize> {
    match w {
        Wiring::T568B => seq![0usize, 1, 2, 3, 4, 5, 6, 7],
        Wiring::T568A => seq![2usize, 5, 0, 3, 4, 1, 6, 7],
    }
}

/// The name shown for a wiring.
pub open spec fn mode_name_spec(w: Wiring) -> Seq<char> {
    match w {
        Wiring::T568B => "T568B"@,
        Wiring::T568A => "T568A"@,
    }
}

/// The wire picture of each pin, for a wiring.
pub fn texture_order(w: Wiring) -> (order: Vec<usize>)
    ensures
        order@ == texture_order_spec(w),
{
    match w {
        Wiring::T568B => vec![0usize, 1, 2, 3, 4, 5, 6, 7],
        Wiring::T568A => vec![2usize, 5, 0, 3, 4, 1, 6, 7],
    }
}

/// The name shown for a wiring.
pub fn mode_name(w: Wiring) -> (name: String)
    ensures
        name@ == mode_name_spec(w),
{
    match w {
        Wiring::T568B => "T568B".to_owned(),
        Wiring::T568A => "T568A".to_owned(),
    }
}

/// Each wiring shows every one of the eight pictures on exactly one pin.
pub proof fn lemma_texture_order_is_permutation(w: Wiring)
    ensures
        texture_order_spec(w).len() == CABLE_COUNT,
        forall|i: int| 0 <= i < CABLE_COUNT ==> #[trigger] texture_order_spec(w)[i] < CABLE_COUNT,
        forall|i: int, j: int|
            0 <= i < j < CABLE_COUNT ==> #[trigger] texture_order_spec(w)[i]
                != #[trigger] texture_order_spec(w)[j],
{
}

/// The cables of a new round before mixing: ids 0 to 7, none held.
pub open spec fn fresh_objects() -> Seq<static_rect_data> {
    Seq::new(CABLE_COUNT as nat, |i: int| static_rect_data { object_grabbed: false, object_id: i as i32 })
}

/// Every pick is a position among `len` items.
pub open spec fn picks_within(picks: Seq<usize>, len: nat) -> bool {
    forall|i: int| 0 <= i < picks.len() ==> #[trigger] picks[i] < len
}

/// `s` after taking out the item at each pick in turn and putting it at the end.
pub open spec fn shuffled<T>(s: Seq<T>, picks: Seq<usize>) -> Seq<T>
    decreases picks.len(),
{
    if picks.len() == 0 {
        s
    } else {
        let prev = shuffled(s, picks.drop_last());
        let r = picks.last() as int;
        prev.remove(r).push(prev[r])
    }
}

/// Mixing keeps the number of items and the items themselves: the result is
/// a permutation of the input.
pub proof fn lemma_shuffled_is_permutation<T>(s: Seq<T>, picks: Seq<usize>)
    requires
        picks_within(picks, s.len()),
    ensures
        shuffled(s, picks).len() == s.len(),
        shuffled(s, picks).to_multiset() == s.to_multiset(),
    decreases picks.len(),
{
    broadcast use vstd::seq_lib::group_seq_properties;
    broadcast use vstd::multiset::group_multiset_axioms;

    if picks.len() > 0 {
        let init = picks.drop_last();
        assert(picks_within(init, s.len())) by {
            assert forall|i: int| 0 <= i < init.len() implies #[trigger] init[i] < s.len() by {
                assert(picks[i] < s.len());
            }
        }
        lemma_shuffled_is_permutation(s, init);
        let prev = shuffled(s, init);
        let r = picks.last() as int;
        assert(picks[picks.len() - 1] < s.len());
        vstd::seq_lib::to_multiset_remove(prev, r);
        vstd::seq_lib::to_multiset_build(prev.remove(r), prev[r]);
        assert(prev.to_multiset().count(prev[r]) > 0) by {
            vstd::seq_lib::to_multiset_contains(prev, prev[r]);
        }
        assert(prev.to_multiset().remove(prev[r]).insert(prev[r]) =~= prev.to_multiset());
    }
}

/// Mixes `items` as `shuffled` says.
pub fn shuffle_with<T>(items: &mut Vec<T>, picks: &Vec<usize>)
    requires
        picks_within(picks@, old(items)@.len()),
    ensures
        final(items)@ == shuffled(old(items)@, picks@),
{
    let ghost s0 = items@;
    let n = picks.len();
    for k in 0..n
        invariant
            n == picks.len(),
            picks_within(picks@, s0.len()),
            items@ == shuffled(s0, picks@.take(k as int)),
            items.len() == s0.len(),
    {
        proof {
            assert(picks@.take(k + 1).drop_last() =~= picks@.take(k as int));
            assert(picks@[k as int] < s0.len());
        }
        let r = picks[k];
        let item = items.remove(r);
        items.push(item);
    }
    proof {
        assert(picks@.take(n as int) =~= picks@);
    }
}

/// Socket `id` holds its own cable.
pub open spec fn placed_right(dests: Seq<static_rect_data_destination>, id: i32) -> bool {
    exists|j: int| 0 <= j < dests.len() && (#[trigger] dests[j]).object_id == id && dests[j].connected == id
}

/// At a reset, cable `id` stays in its socket: the reset clears only the
/// cables not yet placed right (`clear_mode` off) and this one is.
pub open spec fn stays(dests: Seq<static_rect_data_destination>, clear_mode: bool, id: i32) -> bool {
    !clear_mode && placed_right(dests, id)
}

/// The fresh cable with id `id`, not held.
pub open spec fn fresh_cable(id: int) -> static_rect_data {
    static_rect_data { object_grabbed: false, object_id: id as i32 }
}

/// The fresh cables among ids `0..n` that stay (`staying`) or are dealt anew
/// (`!staying`) at a reset, in id order.
pub open spec fn cables_split(
    dests: Seq<static_rect_data_destination>,
    clear_mode: bool,
    n: nat,
    staying: bool,
) -> Seq<static_rect_data>
    decreases n,
{
    if n == 0 {
        Seq::empty()
    } else {
        let prev = cables_split(dests, clear_mode, (n - 1) as nat, staying);
        if stays(dests, clear_mode, (n - 1) as i32) == staying {
            prev.push(fresh_cable(n - 1))
        } else {
            prev
        }
    }
}

/// The cables that stay in their sockets at a reset.
pub open spec fn kept_cables(dests: Seq<static_rect_data_destination>, clear_mode: bool) -> Seq<static_rect_data> {
    cables_split(dests, clear_mode, CABLE_COUNT as nat, true)
}

/// The cables that a reset takes out, mixes and deals again.
pub open spec fn redealt_cables(dests: Seq<static_rect_data_destination>, clear_mode: bool) -> Seq<static_rect_data> {
    cables_split(dests, clear_mode, CABLE_COUNT as nat, false)
}

/// The sockets after a reset: ids 0 to 7, each holding its own cable when
/// that cable stays, empty otherwise.
pub open spec fn dealt_sockets(dests: Seq<static_rect_data_destination>, clear_mode: bool) -> Seq<static_rect_data_destination> {
    Seq::new(
        CABLE_COUNT as nat,
        |i: int|
            static_rect_data_destination {
                object_id: i as i32,
                connected: if stays(dests, clear_mode, i as i32) {
                    i as i32
                } else {
                    NO_OBJECT
                },
            },
    )
}

/// The kept and the dealt-anew cables together are the eight cables, each once.
pub proof fn lemma_split_is_partition(dests: Seq<static_rect_data_destination>, clear_mode: bool, n: nat)
    requires
        n <= CABLE_COUNT,
    ensures
        (cables_split(dests, clear_mode, n, true) + cables_split(dests, clear_mode, n, false)).to_multiset()
            == fresh_objects().take(n as int).to_multiset(),
    decreases n,
{
    broadcast use vstd::seq_lib::group_seq_properties;
    broadcast use vstd::multiset::group_multiset_axioms;

    if n > 0 {
        let m = (n - 1) as nat;
        lemma_split_is_partition(dests, clear_mode, m);
        let a = cables_split(dests, clear_mode, m, true);
        let b = cables_split(dests, clear_mode, m, false);
        let c = fresh_cable(m as int);
        assert(fresh_objects().take(n as int) =~= fresh_objects().take(m as int).push(c));
        vstd::seq_lib::to_multiset_build(fresh_objects().take(m as int), c);
        vstd::seq_lib::lemma_multiset_commutative(a, b);
        if stays(dests, clear_mode, m as i32) {
            vstd::seq_lib::lemma_multiset_commutative(a.push(c), b);
            vstd::seq_lib::to_multiset_build(a, c);
            assert(a.to_multiset().insert(c).add(b.to_multiset()) =~= a.to_multiset().add(b.to_multiset()).insert(c));
        } else {
            vstd::seq_lib::lemma_multiset_commutative(a, b.push(c));
            vstd::seq_lib::to_multiset_build(b, c);
            assert(a.to_multiset().add(b.to_multiset().insert(c)) =~= a.to_multiset().add(b.to_multiset()).insert(c));
        }
    } else {
        assert(fresh_objects().take(0) =~= Seq::<static_rect_data>::empty());
        assert((cables_split(dests, clear_mode, 0, true) + cables_split(dests, clear_mode, 0, false)) =~= Seq::<static_rect_data>::empty());
    }
}

/// Whether socket `id` holds its own cable.
pub fn placed_right_now(dests: &Vec<static_rect_data_destination>, id: i32) -> (res: bool)
    ensures
        res == placed_right(dests@, id),
{
    let mut j: usize = 0;
    while j < dests.len()
        invariant
            j <= dests.len(),
            forall|k: int| 0 <= k < j ==> !((#[trigger] dests@[k]).object_id == id && dests@[k].connected == id),
        decreases dests.len() - j,
    {
        if dests[j].object_id == id && dests[j].connected == id {
            return true;
        }
        j = j + 1;
    }
    false
}

/// Splits the eight cables of a reset into those that stay in their
/// sockets and those dealt anew (see `kept_cables`, `redealt_cables`).
pub fn split_cables(dests: &Vec<static_rect_data_destination>, clear_mode: bool) -> (split: (Vec<static_rect_data>, Vec<static_rect_data>))
    ensures
        split.0@ == kept_cables(dests@, clear_mode),
        split.1@ == redealt_cables(dests@, clear_mode),
{
    let mut kept: Vec<static_rect_data> = Vec::new();
    let mut redealt: Vec<static_rect_data> = Vec::new();
    let mut count_i32: i32 = 0;
    for num in 0..CABLE_COUNT
        invariant
            count_i32 == num,
            kept@ == cables_split(dests@, clear_mode, num as nat, true),
            redealt@ == cables_split(dests@, clear_mode, num as nat, false),
    {
        let stay = !clear_mode && placed_right_now(dests, count_i32);
        let rec = static_rect_data { object_grabbed: false, object_id: count_i32 };
        if stay {
            kept.push(rec);
        } else {
            redealt.push(rec);
        }
        count_i32 = count_i32 + 1;
    }
    (kept, redealt)
}

/// The sockets after a reset (see `dealt_sockets`).
pub fn deal_sockets(dests: &Vec<static_rect_data_destination>, clear_mode: bool) -> (sockets: Vec<static_rect_data_destination>)
    ensures
        sockets@ == dealt_sockets(dests@, clear_mode),
{
    let mut sockets: Vec<static_rect_data_destination> = Vec::new();
    let mut object_id_cab: i32 = 0;
    for looping in 0..CABLE_COUNT
        invariant
            object_id_cab == looping,
            sockets.len() == looping,
            forall|k: int| 0 <= k < looping ==> #[trigger] sockets@[k] == dealt_sockets(dests@, clear_mode)[k],
    {
        let stay = !clear_mode && placed_right_now(dests, object_id_cab);
        let connected = if stay {
            object_id_cab
        } else {
            NO_OBJECT
        };
        sockets.push(static_rect_data_destination { object_id: object_id_cab, connected });
        object_id_cab = object_id_cab + 1;
    }
    proof {
        assert(sockets@ =~= dealt_sockets(dests@, clear_mode));
    }
    sockets
}

/// A number drawn at random below `bound`, by `rand::Rng::gen_range` on the
/// thread's generator (`rand::thread_rng`). The contract claims only that
/// the result lies in `0..bound`, as `gen_range` documents; which number
/// comes is left open. `gen_range` panics on an empty range, so `bound`
/// must be positive.
#[verifier::external_body]
pub(crate) fn random_below(bound: usize) -> (r: usize)
    requires
        bound > 0,
    ensures
        r < bound,
{
    rand::thread_rng().gen_range(0..bound)
}

/// Draws the random picks of a new round with `count` cables to mix: the
/// wiring pick (below 2) and `SHUFFLE_MOVES` positions below `count` (none
/// when there is nothing to mix).
pub fn draw_round_picks(count: usize) -> (picks: (usize, Vec<usize>))
    ensures
        picks.0 < 2,
        picks.1.len() == (if count > 0 {
            crate::rules::SHUFFLE_MOVES
        } else {
            0
        }),
        picks_within(picks.1@, count as nat),
{
    let pick = random_below(2);
    let mut moves: Vec<usize> = Vec::new();
    if count > 0 {
        for looping in 0..crate::rules::SHUFFLE_MOVES
            invariant
                count > 0,
                moves.len() == looping,
                picks_within(moves@, count as nat),
        {
            let random = random_below(count);
            moves.push(random);
        }
    }
    (pick, moves)
}

} // verus!
