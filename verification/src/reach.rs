//! Where the unit in hand can go and whom it can fire on, as the board shows
//! it.
//!
//! Which tiles a unit reaches, what reaching each costs, and which enemies it
//! could fire on from where, are the movement field's and the rules'
//! answers; this module decides what the board offers from them.
use vstd::prelude::*;
use crate::board::{map_order_before, Pos};

verus! {

/// One tile the unit in hand reaches: what reaching it costs, whether the
/// unit may end its move there, and whether a friendly unit stands there (a
/// tile the unit walks through, and which is shown as part of the range).
#[derive(Clone, Copy, Debug, PartialEq, Eq, Structural)]
pub struct ReachedTile {
    pub position: Pos,
    pub cost: u64,
    pub can_stop: bool,
    pub friendly_here: bool,
}

/// Whether a reached tile is shown in the range: not the unit's own tile,
/// one it may end on or a friendly unit stands on, and at a cost the range
/// can show.
pub open spec fn shown_in_range(t: ReachedTile, origin: Pos) -> bool {
    t.position != origin && (t.can_stop || t.friendly_here) && t.cost <= 255
}

pub open spec fn spec_move_range(reach: Seq<ReachedTile>, origin: Pos) -> Seq<(Pos, u8)>
    decreases reach.len(),
{
    if reach.len() == 0 {
        Seq::empty()
    } else {
        let earlier = spec_move_range(reach.drop_last(), origin);
        let t = reach.last();
        if shown_in_range(t, origin) {
            earlier.push((t.position, t.cost as u8))
        } else {
            earlier
        }
    }
}

/// No tile is reached twice.
pub open spec fn reach_unique(reach: Seq<ReachedTile>) -> bool {
    forall|i: int, j: int| 0 <= i < j < reach.len() ==> reach[i].position != reach[j].position
}

/// No tile is listed twice in the range.
pub open spec fn range_unique(range: Seq<(Pos, u8)>) -> bool {
    forall|i: int, j: int| 0 <= i < j < range.len() ==> range[i].0 != range[j].0
}

proof fn lemma_range_comes_from_reach(reach: Seq<ReachedTile>, origin: Pos)
    ensures
        forall|k: int|
            0 <= k < spec_move_range(reach, origin).len() ==> exists|i: int|
                0 <= i < reach.len() && reach[i].position == #[trigger] spec_move_range(reach, origin)[k].0,
        reach_unique(reach) ==> range_unique(spec_move_range(reach, origin)),
    decreases reach.len(),
{
    if reach.len() > 0 {
        let rest = reach.drop_last();
        lemma_range_comes_from_reach(rest, origin);
        let earlier = spec_move_range(rest, origin);
        let range = spec_move_range(reach, origin);
        assert forall|k: int| 0 <= k < range.len() implies exists|i: int|
            0 <= i < reach.len() && reach[i].position == #[trigger] range[k].0 by {
            if k < earlier.len() {
                assert(range[k] == earlier[k]);
                let i = choose|i: int| 0 <= i < rest.len() && rest[i].position == earlier[k].0;
                assert(reach[i] == rest[i]);
            } else {
                assert(reach[reach.len() - 1].position == range[k].0);
            }
        }
        if reach_unique(reach) {
            assert(reach_unique(rest)) by {
                assert forall|i: int, j: int| 0 <= i < j < rest.len() implies rest[i].position != rest[j].position by {
                    assert(rest[i] == reach[i] && rest[j] == reach[j]);
                }
            }
            assert forall|a: int, b: int| 0 <= a < b < range.len() implies range[a].0 != range[b].0 by {
                if b >= earlier.len() {
                    assert(range[a] == earlier[a]);
                    let i = choose|i: int| 0 <= i < rest.len() && rest[i].position == earlier[a].0;
                    assert(reach[i] == rest[i]);
                    assert(range[b].0 == reach[reach.len() - 1].position);
                } else {
                    assert(range[a] == earlier[a] && range[b] == earlier[b]);
                }
            }
        }
    }
}

/// The range shown for the unit in hand, with what reaching each tile costs.
/// A tile reached once is listed at most once.
pub fn move_range(reach: &[ReachedTile], origin: Pos) -> (range: Vec<(Pos, u8)>)
    ensures
        range@ == spec_move_range(reach@, origin),
        reach_unique(reach@) ==> range_unique(range@),
{
    proof {
        lemma_range_comes_from_reach(reach@, origin);
    }
    let mut range: Vec<(Pos, u8)> = Vec::new();
    let mut i: usize = 0;
    while i < reach.len()
        invariant
            0 <= i <= reach@.len(),
            range@ == spec_move_range(reach@.take(i as int), origin),
        decreases reach@.len() - i,
    {
        proof {
            assert(reach@.take(i + 1).drop_last() =~= reach@.take(i as int));
            assert(reach@.take(i + 1).last() == reach@[i as int]);
        }
        let t = reach[i];
        if t.position != origin && (t.can_stop || t.friendly_here) && t.cost <= 255 {
            range.push((t.position, t.cost as u8));
        }
        i = i + 1;
    }
    proof {
        assert(reach@.take(reach@.len() as int) =~= reach@);
    }
    range
}

/// What moving to a firing tile costs: the first cost listed for it, and
/// the most a cost can be for a tile with none.
pub open spec fn step_cost(costs: Seq<(Pos, u64)>, tile: Pos) -> u64
    decreases costs.len(),
{
    if costs.len() == 0 {
        u64::MAX
    } else if costs[0].0 == tile {
        costs[0].1
    } else {
        step_cost(costs.drop_first(), tile)
    }
}

fn step_cost_of(costs: &[(Pos, u64)], tile: Pos) -> (cost: u64)
    ensures
        cost == step_cost(costs@, tile),
{
    let mut i: usize = 0;
    proof {
        assert(costs@.skip(0) =~= costs@);
    }
    while i < costs.len()
        invariant
            0 <= i <= costs@.len(),
            step_cost(costs@.skip(i as int), tile) == step_cost(costs@, tile),
        decreases costs@.len() - i,
    {
        proof {
            assert(costs@.skip(i as int).drop_first() =~= costs@.skip(i + 1));
        }
        if costs[i].0 == tile {
            return costs[i].1;
        }
        i = i + 1;
    }
    u64::MAX
}

/// The order firing tiles are offered in: cheapest to reach first, and by
/// column, then row, between tiles that cost the same.
pub open spec fn approach_before(costs: Seq<(Pos, u64)>, a: Pos, b: Pos) -> bool {
    let ca = step_cost(costs, a);
    let cb = step_cost(costs, b);
    ca < cb || (ca == cb && map_order_before(a, b))
}

pub open spec fn approaches_in_order(costs: Seq<(Pos, u64)>, s: Seq<Pos>) -> bool {
    forall|a: int, b: int| 0 <= a < b < s.len() ==> approach_before(costs, #[trigger] s[a], #[trigger] s[b])
}

proof fn lemma_approach_order_total(costs: Seq<(Pos, u64)>, a: Pos, b: Pos)
    ensures
        a == b || approach_before(costs, a, b) || approach_before(costs, b, a),
        !(approach_before(costs, a, b) && approach_before(costs, b, a)),
        !approach_before(costs, a, a),
{
}

fn before_by_cost(costs: &[(Pos, u64)], a: Pos, b: Pos) -> (before: bool)
    ensures
        before == approach_before(costs@, a, b),
{
    let ca = step_cost_of(costs, a);
    let cb = step_cost_of(costs, b);
    ca < cb || (ca == cb && (a.x < b.x || (a.x == b.x && a.y < b.y)))
}

/// Put `tile` among the firing tiles, in order, unless it is there already.
fn insert_approach(list: &mut Vec<Pos>, tile: Pos, costs: &[(Pos, u64)])
    requires
        approaches_in_order(costs@, old(list)@),
    ensures
        approaches_in_order(costs@, final(list)@),
        forall|q: Pos| #[trigger] final(list)@.contains(q) <==> (old(list)@.contains(q) || q == tile),
{
    let len = list.len();
    let mut k: usize = 0;
    while k < len && before_by_cost(costs, list[k], tile)
        invariant
            len == list@.len(),
            0 <= k <= len,
            forall|a: int| 0 <= a < k ==> approach_before(costs@, #[trigger] list@[a], tile),
        decreases len - k,
    {
        k = k + 1;
    }
    if k < len && list[k] == tile {
        proof {
            assert(list@[k as int] == tile);
        }
        return;
    }
    proof {
        if k < len {
            lemma_approach_order_total(costs@, list@[k as int], tile);
        }
        assert forall|a: int| k <= a < len implies approach_before(costs@, tile, #[trigger] list@[a]) by {
            if a > k {
                assert(approach_before(costs@, list@[k as int], list@[a]));
            }
        }
    }
    let ghost before = list@;
    list.insert(k, tile);
    proof {
        assert forall|a: int, b: int| 0 <= a < b < list@.len() implies approach_before(
            costs@,
            #[trigger] list@[a],
            #[trigger] list@[b],
        ) by {
            if a < k && b < k {
                assert(list@[a] == before[a]);
                assert(list@[b] == before[b]);
            } else if a < k && b == k {
                assert(list@[a] == before[a]);
            } else if a < k && b > k {
                assert(list@[a] == before[a]);
                assert(list@[b] == before[b - 1]);
            } else if a == k {
                assert(list@[b] == before[b - 1]);
            } else {
                assert(list@[a] == before[a - 1]);
                assert(list@[b] == before[b - 1]);
            }
        }
        assert forall|q: Pos| #[trigger] list@.contains(q) <==> (before.contains(q) || q == tile) by {
            if list@.contains(q) {
                let a = choose|a: int| 0 <= a < list@.len() && list@[a] == q;
                if a < k {
                    assert(before[a] == q);
                } else if a > k {
                    assert(before[a - 1] == q);
                }
            }
            if before.contains(q) {
                let a = choose|a: int| 0 <= a < before.len() && before[a] == q;
                if a < k {
                    assert(list@[a] == q);
                } else {
                    assert(list@[a + 1] == q);
                }
            }
            if q == tile {
                assert(list@[k as int] == q);
            }
        }
    }
}

/// Whether, among the first `i` attacks and the first `j` targets of attack
/// `i`, an attack from `from` reaches `target`.
pub open spec fn fires_within(attacks: Seq<(Pos, Seq<Pos>)>, i: int, j: int, from: Pos, target: Pos) -> bool {
    (exists|a: int| 0 <= a < i && #[trigger] attacks[a].0 == from && attacks[a].1.contains(target))
        || (0 <= i < attacks.len() && attacks[i].0 == from && exists|b: int| 0 <= b < j && #[trigger] attacks[i].1[b] == target)
}

/// Whether anything among those attacks reaches `target`.
pub open spec fn targeted_within(attacks: Seq<(Pos, Seq<Pos>)>, i: int, j: int, target: Pos) -> bool {
    (exists|a: int| 0 <= a < i && #[trigger] attacks[a].1.contains(target))
        || (0 <= i < attacks.len() && exists|b: int| 0 <= b < j && #[trigger] attacks[i].1[b] == target)
}

pub open spec fn attacks_view(attacks: Seq<(Pos, Vec<Pos>)>) -> Seq<(Pos, Seq<Pos>)> {
    attacks.map_values(|e: (Pos, Vec<Pos>)| (e.0, e.1@))
}

/// The grouping is right for the attacks read so far: each target once,
/// exactly the targets some attack reaches, each with exactly the tiles it
/// can be fired on from, offered in order.
pub open spec fn grouped(
    groups: Seq<(Pos, Seq<Pos>)>,
    attacks: Seq<(Pos, Seq<Pos>)>,
    costs: Seq<(Pos, u64)>,
    i: int,
    j: int,
) -> bool {
    &&& forall|a: int, b: int| 0 <= a < b < groups.len() ==> #[trigger] groups[a].0 != #[trigger] groups[b].0
    &&& forall|t: Pos| targeted_within(attacks, i, j, t) <==> exists|g: int| 0 <= g < groups.len() && groups[g].0 == t
    &&& forall|g: int, from: Pos| 0 <= g < groups.len() ==> (#[trigger] groups[g].1.contains(from) <==> fires_within(
        attacks,
        i,
        j,
        from,
        groups[g].0,
    ))
    &&& forall|g: int| 0 <= g < groups.len() ==> approaches_in_order(costs, #[trigger] groups[g].1)
}

fn find_group(groups: &Vec<(Pos, Vec<Pos>)>, target: Pos) -> (found: Option<usize>)
    ensures
        match found {
            Some(g) => g < groups@.len() && groups@[g as int].0 == target,
            None => forall|g: int| 0 <= g < groups@.len() ==> groups@[g].0 != target,
        },
{
    let mut g: usize = 0;
    while g < groups.len()
        invariant
            0 <= g <= groups@.len(),
            forall|k: int| 0 <= k < g ==> groups@[k].0 != target,
        decreases groups@.len() - g,
    {
        if groups[g].0 == target {
            return Some(g);
        }
        g = g + 1;
    }
    None
}

/// Every enemy the unit in hand can fire on, each with the tiles it can be
/// fired on from: cheapest to reach first, each once.
///
/// `attacks` lists each firing tile with the enemies it reaches, and
/// `costs` what moving to each firing tile costs.
pub fn attack_targets(attacks: &[(Pos, Vec<Pos>)], costs: &[(Pos, u64)]) -> (targets: Vec<(Pos, Vec<Pos>)>)
    ensures
        grouped(attacks_view(targets@), attacks_view(attacks@), costs@, attacks@.len() as int, 0),
{
    let ghost av = attacks_view(attacks@);
    let mut groups: Vec<(Pos, Vec<Pos>)> = Vec::new();
    let mut i: usize = 0;
    proof {
        assert(attacks_view(groups@) =~= Seq::empty());
    }
    while i < attacks.len()
        invariant
            0 <= i <= attacks@.len(),
            av == attacks_view(attacks@),
            grouped(attacks_view(groups@), av, costs@, i as int, 0),
        decreases attacks@.len() - i,
    {
        let from = attacks[i].0;
        let reached = &attacks[i].1;
        let mut j: usize = 0;
        while j < reached.len()
            invariant
                0 <= i < attacks@.len(),
                0 <= j <= reached@.len(),
                av == attacks_view(attacks@),
                reached@ == av[i as int].1,
                from == av[i as int].0,
                grouped(attacks_view(groups@), av, costs@, i as int, j as int),
            decreases reached@.len() - j,
        {
            let target = reached[j];
            let ghost before = attacks_view(groups@);
            match find_group(&groups, target) {
                Some(g) => {
                    let (t, mut list) = groups.remove(g);
                    proof {
                        assert(before[g as int] == (t, list@));
                        assert(approaches_in_order(costs@, before[g as int].1));
                    }
                    insert_approach(&mut list, from, costs);
                    groups.insert(g, (t, list));
                    proof {
                        let after = attacks_view(groups@);
                        assert(after =~= before.update(g as int, (target, list@)));
                        lemma_grouped_step(before, after, av, costs@, i as int, j as int, g as int);
                    }
                },
                None => {
                    let mut list: Vec<Pos> = Vec::new();
                    list.push(from);
                    groups.push((target, list));
                    proof {
                        let after = attacks_view(groups@);
                        assert(after =~= before.push((target, seq![from])));
                        lemma_grouped_new(before, after, av, costs@, i as int, j as int);
                    }
                },
            }
            j = j + 1;
        }
        proof {
            lemma_grouped_next_attack(attacks_view(groups@), av, costs@, i as int);
        }
        i = i + 1;
    }
    groups
}

proof fn lemma_grouped_next_attack(groups: Seq<(Pos, Seq<Pos>)>, attacks: Seq<(Pos, Seq<Pos>)>, costs: Seq<(Pos, u64)>, i: int)
    requires
        0 <= i < attacks.len(),
        grouped(groups, attacks, costs, i, attacks[i].1.len() as int),
    ensures
        grouped(groups, attacks, costs, i + 1, 0),
{
    assert forall|t: Pos| #[trigger] targeted_within(attacks, i + 1, 0, t) <==> targeted_within(attacks, i, attacks[i].1.len() as int, t) by {
        if targeted_within(attacks, i + 1, 0, t) {
            let a = choose|a: int| 0 <= a < i + 1 && #[trigger] attacks[a].1.contains(t);
            if a == i {
                let b = choose|b: int| 0 <= b < attacks[i].1.len() && attacks[i].1[b] == t;
                assert(attacks[i].1[b] == t);
            }
        }
        if targeted_within(attacks, i, attacks[i].1.len() as int, t) && !(exists|a: int| 0 <= a < i && #[trigger] attacks[a].1.contains(t)) {
            let b = choose|b: int| 0 <= b < attacks[i].1.len() && #[trigger] attacks[i].1[b] == t;
            assert(attacks[i].1.contains(t));
        }
    }
    assert forall|from: Pos, t: Pos| fires_within(attacks, i + 1, 0, from, t) <==> fires_within(attacks, i, attacks[i].1.len() as int, from, t) by {
        if fires_within(attacks, i + 1, 0, from, t) {
            let a = choose|a: int| 0 <= a < i + 1 && #[trigger] attacks[a].0 == from && attacks[a].1.contains(t);
            if a == i {
                let b = choose|b: int| 0 <= b < attacks[i].1.len() && attacks[i].1[b] == t;
                assert(attacks[i].1[b] == t);
            }
        }
        if fires_within(attacks, i, attacks[i].1.len() as int, from, t) && !(exists|a: int| 0 <= a < i && #[trigger] attacks[a].0 == from && attacks[a].1.contains(t)) {
            let b = choose|b: int| 0 <= b < attacks[i].1.len() && #[trigger] attacks[i].1[b] == t;
            assert(attacks[i].1.contains(t));
        }
    }
}

proof fn lemma_step_facts(attacks: Seq<(Pos, Seq<Pos>)>, i: int, j: int)
    requires
        0 <= i < attacks.len(),
        0 <= j < attacks[i].1.len(),
    ensures
        forall|t: Pos| targeted_within(attacks, i, j + 1, t) <==> (targeted_within(attacks, i, j, t) || t == attacks[i].1[j]),
        forall|from: Pos, t: Pos| fires_within(attacks, i, j + 1, from, t) <==> (fires_within(attacks, i, j, from, t)
            || (from == attacks[i].0 && t == attacks[i].1[j])),
{
    assert forall|t: Pos| #[trigger] targeted_within(attacks, i, j + 1, t) <==> (targeted_within(attacks, i, j, t) || t == attacks[i].1[j]) by {
        if t == attacks[i].1[j] {
            assert(attacks[i].1[j] == t);
        }
        if targeted_within(attacks, i, j + 1, t) && !(exists|a: int| 0 <= a < i && #[trigger] attacks[a].1.contains(t)) {
            let b = choose|b: int| 0 <= b < j + 1 && #[trigger] attacks[i].1[b] == t;
            if b < j {
                assert(attacks[i].1[b] == t);
            }
        }
    }
    assert forall|from: Pos, t: Pos| fires_within(attacks, i, j + 1, from, t) <==> (fires_within(attacks, i, j, from, t)
        || (from == attacks[i].0 && t == attacks[i].1[j])) by {
        if from == attacks[i].0 && t == attacks[i].1[j] {
            assert(attacks[i].1[j] == t);
        }
        if fires_within(attacks, i, j + 1, from, t) && !(exists|a: int| 0 <= a < i && #[trigger] attacks[a].0 == from && attacks[a].1.contains(t)) {
            let b = choose|b: int| 0 <= b < j + 1 && #[trigger] attacks[i].1[b] == t;
            if b < j {
                assert(attacks[i].1[b] == t);
            }
        }
    }
}

proof fn lemma_grouped_step(
    before: Seq<(Pos, Seq<Pos>)>,
    after: Seq<(Pos, Seq<Pos>)>,
    attacks: Seq<(Pos, Seq<Pos>)>,
    costs: Seq<(Pos, u64)>,
    i: int,
    j: int,
    g: int,
)
    requires
        0 <= i < attacks.len(),
        0 <= j < attacks[i].1.len(),
        grouped(before, attacks, costs, i, j),
        0 <= g < before.len(),
        before[g].0 == attacks[i].1[j],
        after.len() == before.len(),
        after[g].0 == before[g].0,
        approaches_in_order(costs, after[g].1),
        forall|q: Pos| #[trigger] after[g].1.contains(q) <==> (before[g].1.contains(q) || q == attacks[i].0),
        forall|k: int| 0 <= k < before.len() && k != g ==> after[k] == before[k],
    ensures
        grouped(after, attacks, costs, i, j + 1),
{
    lemma_step_facts(attacks, i, j);
    assert forall|a: int, b: int| 0 <= a < b < after.len() implies #[trigger] after[a].0 != #[trigger] after[b].0 by {
        assert(before[a].0 != before[b].0);
    }
    assert forall|t: Pos| #[trigger] targeted_within(attacks, i, j + 1, t) <==> exists|k: int| 0 <= k < after.len() && after[k].0 == t by {
        if targeted_within(attacks, i, j + 1, t) {
            if t == attacks[i].1[j] {
                assert(after[g].0 == t);
            } else {
                assert(targeted_within(attacks, i, j, t));
                let k = choose|k: int| 0 <= k < before.len() && before[k].0 == t;
                assert(after[k].0 == t);
            }
        }
        if exists|k: int| 0 <= k < after.len() && after[k].0 == t {
            let k = choose|k: int| 0 <= k < after.len() && after[k].0 == t;
            assert(before[k].0 == t);
            if k != g {
                assert(targeted_within(attacks, i, j, t));
            }
        }
    }
    assert forall|k: int, from: Pos| 0 <= k < after.len() implies (#[trigger] after[k].1.contains(from) <==> fires_within(
        attacks,
        i,
        j + 1,
        from,
        after[k].0,
    )) by {
        if k != g {
            assert(after[k] == before[k]);
            assert(before[k].0 != before[g].0);
        }
    }
    assert forall|k: int| 0 <= k < after.len() implies approaches_in_order(costs, #[trigger] after[k].1) by {
        if k != g {
            assert(after[k] == before[k]);
        }
    }
}

proof fn lemma_grouped_new(
    before: Seq<(Pos, Seq<Pos>)>,
    after: Seq<(Pos, Seq<Pos>)>,
    attacks: Seq<(Pos, Seq<Pos>)>,
    costs: Seq<(Pos, u64)>,
    i: int,
    j: int,
)
    requires
        0 <= i < attacks.len(),
        0 <= j < attacks[i].1.len(),
        grouped(before, attacks, costs, i, j),
        forall|k: int| 0 <= k < before.len() ==> before[k].0 != attacks[i].1[j],
        after == before.push((attacks[i].1[j], seq![attacks[i].0])),
    ensures
        grouped(after, attacks, costs, i, j + 1),
{
    lemma_step_facts(attacks, i, j);
    let t0 = attacks[i].1[j];
    let n = before.len() as int;
    assert forall|a: int, b: int| 0 <= a < b < after.len() implies #[trigger] after[a].0 != #[trigger] after[b].0 by {
        if b < n {
            assert(before[a].0 != before[b].0);
        }
    }
    assert(!targeted_within(attacks, i, j, t0));
    assert forall|from: Pos| !fires_within(attacks, i, j, from, t0) by {
        if fires_within(attacks, i, j, from, t0) {
            if exists|a: int| 0 <= a < i && #[trigger] attacks[a].0 == from && attacks[a].1.contains(t0) {
                let a = choose|a: int| 0 <= a < i && #[trigger] attacks[a].0 == from && attacks[a].1.contains(t0);
                assert(attacks[a].1.contains(t0));
            } else {
                let b = choose|b: int| 0 <= b < j && #[trigger] attacks[i].1[b] == t0;
                assert(attacks[i].1[b] == t0);
            }
        }
    }
    assert forall|t: Pos| #[trigger] targeted_within(attacks, i, j + 1, t) <==> exists|k: int| 0 <= k < after.len() && after[k].0 == t by {
        if targeted_within(attacks, i, j + 1, t) {
            if t == t0 {
                assert(after[n].0 == t);
            } else {
                assert(targeted_within(attacks, i, j, t));
                let k = choose|k: int| 0 <= k < before.len() && before[k].0 == t;
                assert(after[k].0 == t);
            }
        }
        if exists|k: int| 0 <= k < after.len() && after[k].0 == t {
            let k = choose|k: int| 0 <= k < after.len() && after[k].0 == t;
            if k < n {
                assert(before[k].0 == t);
                assert(targeted_within(attacks, i, j, t));
            }
        }
    }
    assert forall|k: int, from: Pos| 0 <= k < after.len() implies (#[trigger] after[k].1.contains(from) <==> fires_within(
        attacks,
        i,
        j + 1,
        from,
        after[k].0,
    )) by {
        if k < n {
            assert(after[k] == before[k]);
        } else {
            if from == attacks[i].0 {
                assert(after[k].1[0] == from);
            }
        }
    }
    assert forall|k: int| 0 <= k < after.len() implies approaches_in_order(costs, #[trigger] after[k].1) by {
        if k < n {
            assert(after[k] == before[k]);
        }
    }
}

} // verus!
