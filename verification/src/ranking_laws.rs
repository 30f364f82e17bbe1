use vstd::prelude::*;
use crate::models::{GameView, RankLevelView, RankingView};
use crate::rankings::{
    default_levels, has_level, is_first_level, level_pos, levels_after_clear, levels_after_delete,
    levels_after_rename, levels_with_game_at, levels_with_inserted, levels_without,
    numbered_in_order, virtual_without, without, level_without, other_id,
};
use crate::seq_facts::{
    lemma_filter_all, lemma_filter_contains, lemma_filter_none, lemma_filter_passes,
    lemma_filter_push, lemma_filter_twice,
};

verus! {

/// Two tier lists with the same numbers at the same places find the same tier for a number.
proof fn lemma_same_numbers_same_pos(a: Seq<RankLevelView>, b: Seq<RankLevelView>, level: i32)
    requires
        a.len() == b.len(),
        forall|k: int| 0 <= k < a.len() ==> #[trigger] a[k].level == b[k].level,
    ensures
        has_level(a, level) == has_level(b, level),
        has_level(a, level) ==> level_pos(a, level) == level_pos(b, level) && is_first_level(
            a,
            level,
            level_pos(a, level),
        ),
{
    if has_level(a, level) {
        let k0 = choose|k: int| 0 <= k < a.len() && a[k].level == level;
        assert(b[k0].level == level);
        lemma_first_level_exists(a, level, k0);
        let p = level_pos(a, level);
        assert forall|j: int| 0 <= j < p implies b[j].level != level by {
            assert(a[j].level == b[j].level);
        }
        assert(b[p].level == a[p].level);
        assert(is_first_level(b, level, p));
        let q = level_pos(b, level);
        assert(is_first_level(b, level, q));
        assert(p == q);
    }
    if has_level(b, level) {
        let k0 = choose|k: int| 0 <= k < b.len() && b[k].level == level;
        assert(a[k0].level == level);
    }
}

/// Whenever some tier has a number, a first such tier exists.
proof fn lemma_first_level_exists(ls: Seq<RankLevelView>, level: i32, k0: int)
    requires
        0 <= k0 < ls.len(),
        ls[k0].level == level,
    ensures
        is_first_level(ls, level, level_pos(ls, level)),
    decreases k0,
{
    if forall|j: int| 0 <= j < k0 ==> ls[j].level != level {
        assert(is_first_level(ls, level, k0));
    } else {
        let j = choose|j: int| 0 <= j < k0 && ls[j].level == level;
        lemma_first_level_exists(ls, level, j);
    }
}

/// Placing a game in the tier numbered `level` leaves it in exactly one tier, the first one
/// with that number, where it occurs once; when no tier has that number it is in none.
/// Tier numbers, names and colours do not change.
pub proof fn law_set_game_rank_places_once(ls: Seq<RankLevelView>, gid: Seq<char>, level: i32)
    ensures
        ({
            let out = levels_with_game_at(ls, gid, level);
            &&& out.len() == ls.len()
            &&& forall|k: int|
                0 <= k < ls.len() ==> #[trigger] out[k].level == ls[k].level && out[k].name
                    == ls[k].name && out[k].color == ls[k].color
            &&& has_level(ls, level) ==> {
                let p = level_pos(ls, level);
                &&& forall|k: int|
                    0 <= k < out.len() ==> (#[trigger] out[k].game_ids.contains(gid) <==> k == p)
                &&& out[p].game_ids.filter(|x: Seq<char>| x == gid).len() == 1
            }
            &&& !has_level(ls, level) ==> forall|k: int|
                0 <= k < out.len() ==> !(#[trigger] out[k].game_ids.contains(gid))
        }),
{
    let base = levels_without(ls, gid);
    let out = levels_with_game_at(ls, gid, level);
    let ne = other_id(gid);
    let eq = |x: Seq<char>| x == gid;
    lemma_same_numbers_same_pos(base, ls, level);
    assert forall|k: int| 0 <= k < base.len() implies !(#[trigger] base[k].game_ids.contains(gid)) by {
        lemma_filter_contains(ls[k].game_ids, ne, gid);
    }
    if has_level(ls, level) {
        let p = level_pos(ls, level);
        assert(out[p].game_ids == base[p].game_ids.push(gid));
        assert(out[p].game_ids[base[p].game_ids.len() as int] == gid);
        assert forall|k: int| 0 <= k < out.len() implies (#[trigger] out[k].game_ids.contains(gid)
            <==> k == p) by {
            if k != p {
                assert(out[k] == base[k]);
            }
        }
        assert forall|i: int| 0 <= i < base[p].game_ids.len() implies !eq(
            base[p].game_ids[i],
        ) by {
            assert(base[p].game_ids.contains(base[p].game_ids[i]));
        }
        lemma_filter_none(base[p].game_ids, eq);
        lemma_filter_push(base[p].game_ids, gid, eq);
    }
}

/// Taking a game out of a ranking leaves it in no tier; tier numbers, names and colours
/// do not change.
pub proof fn law_remove_game_leaves_no_tier(ls: Seq<RankLevelView>, gid: Seq<char>)
    ensures
        ({
            let out = levels_without(ls, gid);
            &&& out.len() == ls.len()
            &&& forall|k: int|
                0 <= k < ls.len() ==> #[trigger] out[k].level == ls[k].level && out[k].name
                    == ls[k].name && out[k].color == ls[k].color
            &&& forall|k: int| 0 <= k < out.len() ==> !(#[trigger] out[k].game_ids.contains(gid))
        }),
{
    let ne = other_id(gid);
    assert forall|k: int| 0 <= k < ls.len() implies !(#[trigger] levels_without(
        ls,
        gid,
    )[k].game_ids.contains(gid)) by {
        lemma_filter_contains(ls[k].game_ids, ne, gid);
    }
}

/// Taking a game out of the tiers undoes placing it: the result is the same as taking it
/// out of the tiers as they were before.
pub proof fn law_remove_undoes_set(ls: Seq<RankLevelView>, gid: Seq<char>, level: i32)
    ensures
        levels_without(levels_with_game_at(ls, gid, level), gid) == levels_without(ls, gid),
{
    let base = levels_without(ls, gid);
    let out = levels_with_game_at(ls, gid, level);
    let ne = other_id(gid);
    lemma_same_numbers_same_pos(base, ls, level);
    assert forall|k: int| 0 <= k < ls.len() implies #[trigger] levels_without(out, gid)[k]
        == base[k] by {
        lemma_filter_twice(ls[k].game_ids, ne);
        assert(base[k] == level_without(ls[k], gid));
        assert(without(base[k].game_ids, gid) == base[k].game_ids);
        assert(out.len() == ls.len());
        assert(levels_without(out, gid)[k] == level_without(out[k], gid));
        if has_level(base, level) {
            let p = level_pos(base, level);
            if k == p {
                assert(out[k].game_ids == base[k].game_ids.push(gid));
                lemma_filter_push(base[k].game_ids, gid, ne);
                assert(without(out[k].game_ids, gid) == without(base[k].game_ids, gid));
            } else {
                assert(out[k] == base[k]);
            }
        } else {
            assert(out[k] == base[k]);
        }
    }
    assert(levels_without(out, gid) =~= base);
}

/// Placing a game in the same tier twice is the same as placing it once.
pub proof fn law_set_game_rank_idempotent(ls: Seq<RankLevelView>, gid: Seq<char>, level: i32)
    ensures
        levels_with_game_at(levels_with_game_at(ls, gid, level), gid, level)
            == levels_with_game_at(ls, gid, level),
{
    let out = levels_with_game_at(ls, gid, level);
    law_remove_undoes_set(ls, gid, level);
    assert(levels_without(out, gid) == levels_without(ls, gid));
}

/// A new ranking starts with its tiers numbered 1, 2, ... in order.
pub proof fn law_default_levels_numbered()
    ensures
        numbered_in_order(default_levels()),
        default_levels().len() == 5,
{
}

/// Deleting a tier always leaves the tiers numbered 1, 2, ... in order, and keeps the
/// other tiers in their order.
pub proof fn law_delete_level_renumbers(ls: Seq<RankLevelView>, level: i32)
    requires
        ls.len() <= i32::MAX,
    ensures
        numbered_in_order(levels_after_delete(ls, level)),
        levels_after_delete(ls, level).len() == ls.filter(|l: RankLevelView| l.level != level).len(),
{
    let p = |l: RankLevelView| l.level != level;
    ls.lemma_filter_len(p);
}

/// Adding a tier after tier `after` of tiers numbered 1..n (with 0 <= after <= n) puts the
/// new tier at position `after` and keeps the tiers numbered 1..n+1 in order.
pub proof fn law_add_level_keeps_numbering(
    ls: Seq<RankLevelView>,
    name: Seq<char>,
    color: Seq<char>,
    after: i32,
)
    requires
        numbered_in_order(ls),
        0 <= after <= ls.len(),
        ls.len() < i32::MAX,
    ensures
        ({
            let out = levels_with_inserted(ls, name, color, after);
            &&& out.len() == ls.len() + 1
            &&& numbered_in_order(out)
            &&& out[after as int] == (RankLevelView {
                level: (after + 1) as i32,
                name,
                game_ids: Seq::empty(),
                color,
            })
        }),
{
    if after > 0 {
        assert(ls[after - 1].level == after);
        lemma_first_level_exists(ls, after, after - 1);
        let p = level_pos(ls, after);
        assert(is_first_level(ls, after, p));
        assert(p == after - 1);
    }
}

/// Operations that neither add nor remove tiers keep the numbering 1, 2, ... in order.
pub proof fn law_tier_edits_keep_numbering(
    ls: Seq<RankLevelView>,
    gid: Seq<char>,
    level: i32,
    name: Seq<char>,
    color: Seq<char>,
)
    requires
        numbered_in_order(ls),
    ensures
        numbered_in_order(levels_with_game_at(ls, gid, level)),
        numbered_in_order(levels_without(ls, gid)),
        numbered_in_order(levels_after_clear(ls, level)),
        numbered_in_order(levels_after_rename(ls, level, name, color)),
{
    law_set_game_rank_places_once(ls, gid, level);
    if has_level(ls, level) {
        let k0 = choose|k: int| 0 <= k < ls.len() && ls[k].level == level;
        lemma_first_level_exists(ls, level, k0);
    }
}

/// Clearing a tier leaves the first tier with that number empty.
pub proof fn law_clear_level_empties(ls: Seq<RankLevelView>, level: i32)
    requires
        has_level(ls, level),
    ensures
        levels_after_clear(ls, level)[level_pos(ls, level)].game_ids.len() == 0,
        levels_after_clear(ls, level).len() == ls.len(),
{
    let k0 = choose|k: int| 0 <= k < ls.len() && ls[k].level == level;
    lemma_first_level_exists(ls, level, k0);
}

/// Clearing tier `level` empties only the first tier with that number: it keeps its number,
/// name and colour, and every other tier, game ids included, is left exactly as it was.
/// When no tier has the number, nothing changes.
pub proof fn law_clear_level_touches_one_tier(ls: Seq<RankLevelView>, level: i32)
    ensures
        levels_after_clear(ls, level).len() == ls.len(),
        forall|k: int|
            0 <= k < ls.len() && !is_first_level(ls, level, k) ==> #[trigger] levels_after_clear(
                ls,
                level,
            )[k] == ls[k],
        forall|k: int|
            0 <= k < ls.len() && is_first_level(ls, level, k) ==> {
                let out = #[trigger] levels_after_clear(ls, level)[k];
                &&& out.game_ids.len() == 0
                &&& out.level == ls[k].level
                &&& out.name == ls[k].name
                &&& out.color == ls[k].color
            },
        !(exists|k: int| 0 <= k < ls.len() && ls[k].level == level) ==> levels_after_clear(ls, level)
            == ls,
{
    if has_level(ls, level) {
        let k0 = choose|k: int| 0 <= k < ls.len() && ls[k].level == level;
        lemma_first_level_exists(ls, level, k0);
        let p = level_pos(ls, level);
        assert forall|k: int| 0 <= k < ls.len() && is_first_level(ls, level, k) implies k == p by {
            if k < p {
                assert(ls[k].level != level);
            }
            if p < k {
                assert(ls[p].level != level);
            }
        }
    }
}

/// Removing a virtual game leaves no virtual game with that id and no tier holding it.
pub proof fn law_remove_virtual_game_clears_it(r: RankingView, gid: Seq<char>)
    ensures
        forall|j: int|
            0 <= j < virtual_without(r.virtual_games, gid).len() ==> (#[trigger] virtual_without(
                r.virtual_games,
                gid,
            )[j]).id != gid,
        forall|k: int|
            0 <= k < levels_without(r.levels, gid).len() ==> !(#[trigger] levels_without(
                r.levels,
                gid,
            )[k].game_ids.contains(gid)),
{
    lemma_filter_passes(r.virtual_games, |g: GameView| g.id != gid);
    law_remove_game_leaves_no_tier(r.levels, gid);
}

} // verus!
