use vstd::prelude::*;
use vstd::string::StringExecFns;
use crate::error::{AppError, ErrorCode};
use crate::models::{Game, GameView, RankLevel, RankLevelView, Ranking, RankingView};
use crate::seq_facts::{lemma_filter_push, lemma_take_push};

verus! {

// ==================== Model ====================

/// `ids` with every occurrence of `gid` taken out, the others kept in order.
pub open spec fn without(ids: Seq<Seq<char>>, gid: Seq<char>) -> Seq<Seq<char>> {
    ids.filter(other_id(gid))
}

/// The test that keeps the ids other than `gid`.
pub open spec fn other_id(gid: Seq<char>) -> spec_fn(Seq<char>) -> bool {
    |x: Seq<char>| x != gid
}

/// A tier with every occurrence of `gid` taken out.
pub open spec fn level_without(l: RankLevelView, gid: Seq<char>) -> RankLevelView {
    RankLevelView { level: l.level, name: l.name, game_ids: without(l.game_ids, gid), color: l.color }
}

/// Every tier with every occurrence of `gid` taken out.
pub open spec fn levels_without(ls: Seq<RankLevelView>, gid: Seq<char>) -> Seq<RankLevelView> {
    Seq::new(ls.len(), |k: int| level_without(ls[k], gid))
}

pub open spec fn has_ranking(rs: Seq<RankingView>, id: Seq<char>) -> bool {
    exists|i: int| 0 <= i < rs.len() && rs[i].id == id
}

pub open spec fn is_first_ranking(rs: Seq<RankingView>, id: Seq<char>, i: int) -> bool {
    &&& 0 <= i < rs.len()
    &&& rs[i].id == id
    &&& forall|j: int| 0 <= j < i ==> rs[j].id != id
}

/// The position of the first ranking with the given id.
pub open spec fn ranking_pos(rs: Seq<RankingView>, id: Seq<char>) -> int {
    choose|i: int| is_first_ranking(rs, id, i)
}

pub open spec fn has_level(ls: Seq<RankLevelView>, level: i32) -> bool {
    exists|k: int| 0 <= k < ls.len() && ls[k].level == level
}

pub open spec fn is_first_level(ls: Seq<RankLevelView>, level: i32, k: int) -> bool {
    &&& 0 <= k < ls.len()
    &&& ls[k].level == level
    &&& forall|j: int| 0 <= j < k ==> ls[j].level != level
}

/// The position of the first tier with the given number.
pub open spec fn level_pos(ls: Seq<RankLevelView>, level: i32) -> int {
    choose|k: int| is_first_level(ls, level, k)
}

/// A ranking with new tiers, stamped with the time of the change.
pub open spec fn restamp(r: RankingView, levels: Seq<RankLevelView>, now: Seq<char>) -> RankingView {
    RankingView {
        id: r.id,
        name: r.name,
        levels,
        created_at: r.created_at,
        updated_at: now,
        virtual_games: r.virtual_games,
    }
}

/// The tiers after a game is placed in the tier numbered `level`: it leaves every tier,
/// then joins the end of the first tier with that number, if there is one.
pub open spec fn levels_with_game_at(ls: Seq<RankLevelView>, gid: Seq<char>, level: i32) -> Seq<
    RankLevelView,
> {
    let base = levels_without(ls, gid);
    if has_level(base, level) {
        let k = level_pos(base, level);
        base.update(
            k,
            RankLevelView {
                level: base[k].level,
                name: base[k].name,
                game_ids: base[k].game_ids.push(gid),
                color: base[k].color,
            },
        )
    } else {
        base
    }
}

/// The tiers after a new tier is put after the tier numbered `after`
/// (`after <= 0` puts it first; a number that no tier has puts it last).
/// Every tier numbered above `after` moves one number up; the new tier gets `after + 1`.
pub open spec fn levels_with_inserted(
    ls: Seq<RankLevelView>,
    name: Seq<char>,
    color: Seq<char>,
    after: i32,
) -> Seq<RankLevelView> {
    let idx = if after <= 0 {
        0
    } else if has_level(ls, after) {
        level_pos(ls, after) + 1
    } else {
        ls.len() as int
    };
    let bumped = Seq::new(
        ls.len(),
        |k: int|
            RankLevelView {
                level: if ls[k].level > after { (ls[k].level + 1) as i32 } else { ls[k].level },
                name: ls[k].name,
                game_ids: ls[k].game_ids,
                color: ls[k].color,
            },
    );
    bumped.insert(
        idx,
        RankLevelView { level: (after + 1) as i32, name, game_ids: Seq::empty(), color },
    )
}

/// The tiers after the tiers numbered `level` are removed and the rest renumbered from 1.
pub open spec fn levels_after_delete(ls: Seq<RankLevelView>, level: i32) -> Seq<RankLevelView> {
    let kept = ls.filter(|l: RankLevelView| l.level != level);
    Seq::new(
        kept.len(),
        |k: int|
            RankLevelView {
                level: (k + 1) as i32,
                name: kept[k].name,
                game_ids: kept[k].game_ids,
                color: kept[k].color,
            },
    )
}

/// The tiers after the first tier numbered `level` is emptied.
pub open spec fn levels_after_clear(ls: Seq<RankLevelView>, level: i32) -> Seq<RankLevelView> {
    if has_level(ls, level) {
        let k = level_pos(ls, level);
        ls.update(
            k,
            RankLevelView {
                level: ls[k].level,
                name: ls[k].name,
                game_ids: Seq::empty(),
                color: ls[k].color,
            },
        )
    } else {
        ls
    }
}

/// The tiers after the first tier numbered `level` is renamed and recoloured.
pub open spec fn levels_after_rename(
    ls: Seq<RankLevelView>,
    level: i32,
    name: Seq<char>,
    color: Seq<char>,
) -> Seq<RankLevelView> {
    if has_level(ls, level) {
        let k = level_pos(ls, level);
        ls.update(k, RankLevelView { level: ls[k].level, name, game_ids: ls[k].game_ids, color })
    } else {
        ls
    }
}

/// The tiers are numbered 1, 2, ... in order.
pub open spec fn numbered_in_order(ls: Seq<RankLevelView>) -> bool {
    forall|k: int| 0 <= k < ls.len() ==> ls[k].level == k + 1
}

/// The error returned when no ranking has the requested id.
pub open spec fn is_missing_ranking(e: AppError) -> bool {
    e.is_business(ErrorCode::GameNotFound, "排名不存在"@)
}

/// The tiers that a new ranking starts with.
pub open spec fn default_levels() -> Seq<RankLevelView> {
    seq![
        RankLevelView { level: 1, name: "夯"@, game_ids: Seq::empty(), color: "rgb(255, 127, 127)"@ },
        RankLevelView { level: 2, name: "顶级"@, game_ids: Seq::empty(), color: "rgb(255, 191, 127)"@ },
        RankLevelView { level: 3, name: "人上人"@, game_ids: Seq::empty(), color: "rgb(255, 223, 127)"@ },
        RankLevelView { level: 4, name: "NPC"@, game_ids: Seq::empty(), color: "rgb(255, 255, 127)"@ },
        RankLevelView { level: 5, name: "拉完了"@, game_ids: Seq::empty(), color: "rgb(191, 255, 127)"@ },
    ]
}

/// How a ranking operation that edits one ranking relates the rankings before and after it.
pub open spec fn edits_ranking(
    before: Seq<RankingView>,
    after: Seq<RankingView>,
    id: Seq<char>,
    res: Result<RankingView, AppError>,
    edit: spec_fn(RankingView) -> RankingView,
) -> bool {
    match res {
        Ok(r) => {
            &&& has_ranking(before, id)
            &&& r == edit(before[ranking_pos(before, id)])
            &&& after == before.update(ranking_pos(before, id), r)
        },
        Err(e) => {
            &&& !has_ranking(before, id)
            &&& is_missing_ranking(e)
            &&& after == before
        },
    }
}

pub open spec fn result_view(res: Result<Ranking, AppError>) -> Result<RankingView, AppError> {
    match res {
        Ok(r) => Ok(r@),
        Err(e) => Err(e),
    }
}

// ==================== Helpers ====================

fn missing_ranking() -> (e: AppError)
    ensures
        is_missing_ranking(e),
{
    AppError::new(ErrorCode::GameNotFound, String::from_str("排名不存在"))
}

/// Position of the first ranking with the given id.
pub fn find_ranking(rankings: &Vec<Ranking>, id: &String) -> (pos: Option<usize>)
    ensures
        match pos {
            Some(i) => {
                &&& has_ranking(rankings.deep_view(), id@)
                &&& is_first_ranking(rankings.deep_view(), id@, i as int)
                &&& i == ranking_pos(rankings.deep_view(), id@)
            },
            None => !has_ranking(rankings.deep_view(), id@),
        },
{
    let ghost rs = rankings.deep_view();
    let mut i: usize = 0;
    while i < rankings.len()
        invariant
            i <= rankings.len(),
            rs == rankings.deep_view(),
            forall|j: int| 0 <= j < i ==> rs[j].id != id@,
        decreases rankings.len() - i,
    {
        if rankings[i].id == *id {
            proof {
                assert(is_first_ranking(rs, id@, i as int));
                let k = ranking_pos(rs, id@);
                assert(is_first_ranking(rs, id@, k));
                assert(k == i);
            }
            return Some(i);
        }
        i = i + 1;
    }
    None
}

/// Position of the first tier with the given number.
fn find_level(levels: &Vec<RankLevel>, level: i32) -> (pos: Option<usize>)
    ensures
        match pos {
            Some(k) => {
                &&& has_level(levels.deep_view(), level)
                &&& is_first_level(levels.deep_view(), level, k as int)
                &&& k == level_pos(levels.deep_view(), level)
            },
            None => !has_level(levels.deep_view(), level),
        },
{
    let ghost ls = levels.deep_view();
    let mut k: usize = 0;
    while k < levels.len()
        invariant
            k <= levels.len(),
            ls == levels.deep_view(),
            forall|j: int| 0 <= j < k ==> ls[j].level != level,
        decreases levels.len() - k,
    {
        if levels[k].level == level {
            proof {
                assert(is_first_level(ls, level, k as int));
                let p = level_pos(ls, level);
                assert(is_first_level(ls, level, p));
                assert(p == k);
            }
            return Some(k);
        }
        k = k + 1;
    }
    None
}

/// `ids` without the occurrences of `gid`.
pub fn remove_id(ids: &Vec<String>, gid: &String) -> (res: Vec<String>)
    ensures
        res.deep_view() == without(ids.deep_view(), gid@),
{
    let ghost s = ids.deep_view();
    let ghost p = other_id(gid@);
    let mut res: Vec<String> = Vec::new();
    let mut i: usize = 0;
    while i < ids.len()
        invariant
            i <= ids.len(),
            s == ids.deep_view(),
            p == other_id(gid@),
            res.deep_view() == s.take(i as int).filter(p),
        decreases ids.len() - i,
    {
        proof {
            lemma_take_push(s, i as int);
            lemma_filter_push(s.take(i as int), s[i as int], p);
        }
        if ids[i] != *gid {
            res.push(ids[i].clone());
            assert(res.deep_view() =~= s.take(i as int).filter(p).push(s[i as int]));
        }
        i = i + 1;
    }
    assert(s.take(ids.len() as int) =~= s);
    res
}

/// Every tier without the occurrences of `gid`.
fn remove_from_levels(levels: &Vec<RankLevel>, gid: &String) -> (res: Vec<RankLevel>)
    ensures
        res.deep_view() == levels_without(levels.deep_view(), gid@),
{
    let ghost ls = levels.deep_view();
    let mut res: Vec<RankLevel> = Vec::new();
    let mut k: usize = 0;
    while k < levels.len()
        invariant
            k <= levels.len(),
            ls == levels.deep_view(),
            res.deep_view() =~= Seq::new(k as nat, |j: int| level_without(ls[j], gid@)),
        decreases levels.len() - k,
    {
        let l = &levels[k];
        let nl = RankLevel {
            level: l.level,
            name: l.name.clone(),
            game_ids: remove_id(&l.game_ids, gid),
            color: l.color.clone(),
        };
        assert(nl@ == level_without(ls[k as int], gid@));
        let ghost before = res.deep_view();
        res.push(nl);
        assert(res.deep_view() =~= before.push(nl@));
        k = k + 1;
    }
    res
}

fn new_level(level: i32, name: &str, color: &str) -> (l: RankLevel)
    ensures
        l@ == (RankLevelView { level, name: name@, game_ids: Seq::empty(), color: color@ }),
{
    let l = RankLevel {
        level,
        name: String::from_str(name),
        game_ids: Vec::new(),
        color: String::from_str(color),
    };
    assert(l.game_ids.deep_view() =~= Seq::<Seq<char>>::empty());
    l
}

/// The tiers that a new ranking starts with.
pub fn default_rank_levels() -> (levels: Vec<RankLevel>)
    ensures
        levels.deep_view() == default_levels(),
{
    let mut levels: Vec<RankLevel> = Vec::new();
    levels.push(new_level(1, "夯", "rgb(255, 127, 127)"));
    levels.push(new_level(2, "顶级", "rgb(255, 191, 127)"));
    levels.push(new_level(3, "人上人", "rgb(255, 223, 127)"));
    levels.push(new_level(4, "NPC", "rgb(255, 255, 127)"));
    levels.push(new_level(5, "拉完了", "rgb(191, 255, 127)"));
    assert(levels.deep_view() =~= default_levels());
    levels
}


/// Puts new tiers into the ranking at `i`, stamps it and returns a copy of it.
fn store_levels(rankings: &mut Vec<Ranking>, i: usize, levels: Vec<RankLevel>, now: &str) -> (out:
    Ranking)
    requires
        i < old(rankings).len(),
    ensures
        out@ == restamp(old(rankings).deep_view()[i as int], levels.deep_view(), now@),
        final(rankings).deep_view() == old(rankings).deep_view().update(i as int, out@),
{
    let ghost before = rankings.deep_view();
    let mut r = rankings[i].clone();
    r.levels = levels;
    r.updated_at = String::from_str(now);
    let out = r.clone();
    rankings.set(i, r);
    assert(rankings.deep_view() =~= before.update(i as int, out@));
    out
}

// ==================== Operations ====================

/// Creates a ranking with the default tiers and adds it at the end.
pub fn create_ranking(rankings: &mut Vec<Ranking>, id: String, name: String, now: &str) -> (out:
    Ranking)
    ensures
        out@ == (RankingView {
            id: id@,
            name: name@,
            levels: default_levels(),
            created_at: now@,
            updated_at: now@,
            virtual_games: Seq::empty(),
        }),
        final(rankings).deep_view() == old(rankings).deep_view().push(out@),
{
    let ghost before = rankings.deep_view();
    let r = Ranking {
        id,
        name,
        levels: default_rank_levels(),
        created_at: String::from_str(now),
        updated_at: String::from_str(now),
        virtual_games: Vec::new(),
    };
    assert(r.virtual_games.deep_view() =~= Seq::<GameView>::empty());
    let out = r.clone();
    rankings.push(r);
    assert(rankings.deep_view() =~= before.push(out@));
    out
}

/// Replaces the first ranking with the same id, stamped with the time of the change.
pub fn update_ranking(rankings: &mut Vec<Ranking>, ranking: Ranking, now: &str) -> (res: Result<
    Ranking,
    AppError,
>)
    ensures
        edits_ranking(
            old(rankings).deep_view(),
            final(rankings).deep_view(),
            ranking.id@,
            result_view(res),
            |r: RankingView| restamp(ranking@, ranking@.levels, now@),
        ),
{
    let ghost before = rankings.deep_view();
    match find_ranking(rankings, &ranking.id) {
        None => Err(missing_ranking()),
        Some(i) => {
            let mut updated = ranking;
            updated.updated_at = String::from_str(now);
            let out = updated.clone();
            rankings.set(i, updated);
            assert(rankings.deep_view() =~= before.update(i as int, out@));
            Ok(out)
        },
    }
}

/// Removes every ranking with the given id; fails when there is none.
pub fn delete_ranking(rankings: &mut Vec<Ranking>, id: &str) -> (res: Result<(), AppError>)
    ensures
        match res {
            Ok(()) => {
                &&& has_ranking(old(rankings).deep_view(), id@)
                &&& final(rankings).deep_view() == old(rankings).deep_view().filter(
                    |r: RankingView| r.id != id@,
                )
            },
            Err(e) => {
                &&& !has_ranking(old(rankings).deep_view(), id@)
                &&& is_missing_ranking(e)
                &&& final(rankings).deep_view() == old(rankings).deep_view()
            },
        },
{
    let key = String::from_str(id);
    if find_ranking(rankings, &key).is_none() {
        return Err(missing_ranking());
    }
    let ghost s = rankings.deep_view();
    let ghost p = |r: RankingView| r.id != id@;
    let mut kept: Vec<Ranking> = Vec::new();
    let mut i: usize = 0;
    while i < rankings.len()
        invariant
            i <= rankings.len(),
            s == rankings.deep_view(),
            key@ == id@,
            p == (|r: RankingView| r.id != id@),
            kept.deep_view() == s.take(i as int).filter(p),
        decreases rankings.len() - i,
    {
        proof {
            lemma_take_push(s, i as int);
            lemma_filter_push(s.take(i as int), s[i as int], p);
        }
        if rankings[i].id != key {
            let ghost before = kept.deep_view();
            kept.push(rankings[i].clone());
            assert(kept.deep_view() =~= before.push(s[i as int]));
        }
        i = i + 1;
    }
    assert(s.take(s.len() as int) =~= s);
    *rankings = kept;
    Ok(())
}

/// Places a game in the tier numbered `level` of a ranking, taking it out of every other tier.
pub fn set_game_rank(
    rankings: &mut Vec<Ranking>,
    ranking_id: &str,
    game_id: &str,
    level: i32,
    now: &str,
) -> (res: Result<Ranking, AppError>)
    ensures
        edits_ranking(
            old(rankings).deep_view(),
            final(rankings).deep_view(),
            ranking_id@,
            result_view(res),
            |r: RankingView| restamp(r, levels_with_game_at(r.levels, game_id@, level), now@),
        ),
{
    let key = String::from_str(ranking_id);
    let gid = String::from_str(game_id);
    match find_ranking(rankings, &key) {
        None => Err(missing_ranking()),
        Some(i) => {
            let mut levels = remove_from_levels(&rankings[i].levels, &gid);
            let ghost base = levels.deep_view();
            match find_level(&levels, level) {
                Some(k) => {
                    let mut l = levels[k].clone();
                    l.game_ids.push(gid);
                    assert(l.game_ids.deep_view() =~= base[k as int].game_ids.push(game_id@));
                    levels.set(k, l);
                    assert(levels.deep_view() =~= levels_with_game_at(
                        rankings.deep_view()[i as int].levels,
                        game_id@,
                        level,
                    ));
                },
                None => {},
            }
            Ok(store_levels(rankings, i, levels, now))
        },
    }
}

/// Takes a game out of every tier of a ranking.
pub fn remove_game_from_rank(
    rankings: &mut Vec<Ranking>,
    ranking_id: &str,
    game_id: &str,
    now: &str,
) -> (res: Result<Ranking, AppError>)
    ensures
        edits_ranking(
            old(rankings).deep_view(),
            final(rankings).deep_view(),
            ranking_id@,
            result_view(res),
            |r: RankingView| restamp(r, levels_without(r.levels, game_id@), now@),
        ),
{
    let key = String::from_str(ranking_id);
    let gid = String::from_str(game_id);
    match find_ranking(rankings, &key) {
        None => Err(missing_ranking()),
        Some(i) => {
            let levels = remove_from_levels(&rankings[i].levels, &gid);
            Ok(store_levels(rankings, i, levels, now))
        },
    }
}

/// Adds a tier after the tier numbered `insert_after_level` (first when it is 0 or less).
pub fn add_rank_level(
    rankings: &mut Vec<Ranking>,
    ranking_id: &str,
    name: &str,
    color: &str,
    insert_after_level: i32,
    now: &str,
) -> (res: Result<Ranking, AppError>)
    requires
        insert_after_level < i32::MAX,
        has_ranking(old(rankings).deep_view(), ranking_id@) ==> forall|k: int|
            0 <= k < old(rankings).deep_view()[ranking_pos(
                old(rankings).deep_view(),
                ranking_id@,
            )].levels.len() ==> old(rankings).deep_view()[ranking_pos(
                old(rankings).deep_view(),
                ranking_id@,
            )].levels[k].level < i32::MAX,
    ensures
        edits_ranking(
            old(rankings).deep_view(),
            final(rankings).deep_view(),
            ranking_id@,
            result_view(res),
            |r: RankingView|
                restamp(
                    r,
                    levels_with_inserted(r.levels, name@, color@, insert_after_level),
                    now@,
                ),
        ),
{
    let key = String::from_str(ranking_id);
    match find_ranking(rankings, &key) {
        None => Err(missing_ranking()),
        Some(i) => {
            let old_levels = &rankings[i].levels;
            let ghost ls = old_levels.deep_view();
            assert(ls == rankings.deep_view()[i as int].levels);
            assert(forall|j: int| 0 <= j < ls.len() ==> ls[j].level < i32::MAX);
            let idx: usize = if insert_after_level <= 0 {
                0
            } else {
                match find_level(old_levels, insert_after_level) {
                    Some(p) => {
                        assert(p < old_levels.len());
                        p + 1
                    },
                    None => old_levels.len(),
                }
            };
            let mut levels: Vec<RankLevel> = Vec::new();
            let mut k: usize = 0;
            while k < old_levels.len()
                invariant
                    k <= old_levels.len(),
                    ls == old_levels.deep_view(),
                    forall|j: int| 0 <= j < ls.len() ==> ls[j].level < i32::MAX,
                    levels.deep_view() =~= Seq::new(
                        k as nat,
                        |j: int|
                            RankLevelView {
                                level: if ls[j].level > insert_after_level {
                                    (ls[j].level + 1) as i32
                                } else {
                                    ls[j].level
                                },
                                name: ls[j].name,
                                game_ids: ls[j].game_ids,
                                color: ls[j].color,
                            },
                    ),
                decreases old_levels.len() - k,
            {
                let mut l = old_levels[k].clone();
                assert(l.level == ls[k as int].level);
                if l.level > insert_after_level {
                    l.level = l.level + 1;
                }
                let ghost before = levels.deep_view();
                levels.push(l);
                assert(levels.deep_view() =~= before.push(l@));
                k = k + 1;
            }
            levels.insert(idx, new_level(insert_after_level + 1, name, color));
            assert(levels.deep_view() =~= levels_with_inserted(ls, name@, color@, insert_after_level));
            Ok(store_levels(rankings, i, levels, now))
        },
    }
}

/// Removes the tiers numbered `level` and renumbers the rest 1, 2, ... in order.
pub fn delete_rank_level(rankings: &mut Vec<Ranking>, ranking_id: &str, level: i32, now: &str) -> (res:
    Result<Ranking, AppError>)
    ensures
        edits_ranking(
            old(rankings).deep_view(),
            final(rankings).deep_view(),
            ranking_id@,
            result_view(res),
            |r: RankingView| restamp(r, levels_after_delete(r.levels, level), now@),
        ),
{
    let key = String::from_str(ranking_id);
    match find_ranking(rankings, &key) {
        None => Err(missing_ranking()),
        Some(i) => {
            let old_levels = &rankings[i].levels;
            let ghost ls = old_levels.deep_view();
            let ghost p = |l: RankLevelView| l.level != level;
            let mut levels: Vec<RankLevel> = Vec::new();
            let mut k: usize = 0;
            while k < old_levels.len()
                invariant
                    k <= old_levels.len(),
                    ls == old_levels.deep_view(),
                    p == (|l: RankLevelView| l.level != level),
                    levels.len() == ls.take(k as int).filter(p).len(),
                    levels.deep_view() =~= Seq::new(
                        ls.take(k as int).filter(p).len(),
                        |j: int|
                            RankLevelView {
                                level: (j + 1) as i32,
                                name: ls.take(k as int).filter(p)[j].name,
                                game_ids: ls.take(k as int).filter(p)[j].game_ids,
                                color: ls.take(k as int).filter(p)[j].color,
                            },
                    ),
                decreases old_levels.len() - k,
            {
                proof {
                    lemma_take_push(ls, k as int);
                    lemma_filter_push(ls.take(k as int), ls[k as int], p);
                }
                if old_levels[k].level != level {
                    let mut l = old_levels[k].clone();
                    l.level = (levels.len() + 1) as i32;
                    let ghost before = levels.deep_view();
                    levels.push(l);
                    assert(levels.deep_view() =~= before.push(l@));
                }
                k = k + 1;
            }
            assert(ls.take(ls.len() as int) =~= ls);
            assert(levels.deep_view() =~= levels_after_delete(ls, level));
            Ok(store_levels(rankings, i, levels, now))
        },
    }
}

/// Empties the first tier numbered `level`.
pub fn clear_rank_level(rankings: &mut Vec<Ranking>, ranking_id: &str, level: i32, now: &str) -> (res:
    Result<Ranking, AppError>)
    ensures
        edits_ranking(
            old(rankings).deep_view(),
            final(rankings).deep_view(),
            ranking_id@,
            result_view(res),
            |r: RankingView| restamp(r, levels_after_clear(r.levels, level), now@),
        ),
{
    let key = String::from_str(ranking_id);
    match find_ranking(rankings, &key) {
        None => Err(missing_ranking()),
        Some(i) => {
            let mut levels = rankings[i].levels.clone();
            assert(levels.deep_view() =~= rankings.deep_view()[i as int].levels);
            match find_level(&levels, level) {
                Some(k) => {
                    let mut l = levels[k].clone();
                    l.game_ids = Vec::new();
                    assert(l.game_ids.deep_view() =~= Seq::<Seq<char>>::empty());
                    levels.set(k, l);
                    assert(levels.deep_view() =~= levels_after_clear(
                        rankings.deep_view()[i as int].levels,
                        level,
                    ));
                },
                None => {},
            }
            Ok(store_levels(rankings, i, levels, now))
        },
    }
}

/// Renames and recolours the first tier numbered `level`.
pub fn update_rank_level(
    rankings: &mut Vec<Ranking>,
    ranking_id: &str,
    level: i32,
    name: &str,
    color: &str,
    now: &str,
) -> (res: Result<Ranking, AppError>)
    ensures
        edits_ranking(
            old(rankings).deep_view(),
            final(rankings).deep_view(),
            ranking_id@,
            result_view(res),
            |r: RankingView| restamp(r, levels_after_rename(r.levels, level, name@, color@), now@),
        ),
{
    let key = String::from_str(ranking_id);
    match find_ranking(rankings, &key) {
        None => Err(missing_ranking()),
        Some(i) => {
            let mut levels = rankings[i].levels.clone();
            assert(levels.deep_view() =~= rankings.deep_view()[i as int].levels);
            match find_level(&levels, level) {
                Some(k) => {
                    let mut l = levels[k].clone();
                    l.name = String::from_str(name);
                    l.color = String::from_str(color);
                    levels.set(k, l);
                    assert(levels.deep_view() =~= levels_after_rename(
                        rankings.deep_view()[i as int].levels,
                        level,
                        name@,
                        color@,
                    ));
                },
                None => {},
            }
            Ok(store_levels(rankings, i, levels, now))
        },
    }
}


/// The ranking already has a virtual game with this id or this name.
pub open spec fn has_virtual_twin(r: RankingView, g: GameView) -> bool {
    exists|j: int|
        0 <= j < r.virtual_games.len() && (r.virtual_games[j].id == g.id
            || r.virtual_games[j].name == g.name)
}

/// The error returned when a ranking already holds the virtual game.
pub open spec fn is_duplicate_virtual(e: AppError) -> bool {
    e.is_business(ErrorCode::InvalidInput, "该游戏已在此排名中"@)
}

/// The virtual games of a ranking without the ones with id `gid`.
pub open spec fn virtual_without(vgs: Seq<GameView>, gid: Seq<char>) -> Seq<GameView> {
    vgs.filter(|g: GameView| g.id != gid)
}

/// Adds a game that exists only in a ranking; refuses one whose id or name is already there.
pub fn add_rank_virtual_game(rankings: &mut Vec<Ranking>, ranking_id: &str, game: Game, now: &str) -> (res:
    Result<Ranking, AppError>)
    ensures
        match res {
            Ok(r) => {
                let before = old(rankings).deep_view();
                let i = ranking_pos(before, ranking_id@);
                &&& has_ranking(before, ranking_id@)
                &&& !has_virtual_twin(before[i], game@)
                &&& r@ == (RankingView {
                    id: before[i].id,
                    name: before[i].name,
                    levels: before[i].levels,
                    created_at: before[i].created_at,
                    updated_at: now@,
                    virtual_games: before[i].virtual_games.push(game@),
                })
                &&& final(rankings).deep_view() == before.update(i, r@)
            },
            Err(e) => {
                let before = old(rankings).deep_view();
                &&& final(rankings).deep_view() == before
                &&& if has_ranking(before, ranking_id@) {
                    has_virtual_twin(before[ranking_pos(before, ranking_id@)], game@)
                        && is_duplicate_virtual(e)
                } else {
                    is_missing_ranking(e)
                }
            },
        },
{
    let ghost before = rankings.deep_view();
    let key = String::from_str(ranking_id);
    match find_ranking(rankings, &key) {
        None => Err(missing_ranking()),
        Some(i) => {
            let vgs = &rankings[i].virtual_games;
            let mut j: usize = 0;
            while j < vgs.len()
                invariant
                    j <= vgs.len(),
                    vgs.deep_view() == before[i as int].virtual_games,
                    has_ranking(before, ranking_id@),
                    i == ranking_pos(before, ranking_id@),
                    rankings.deep_view() == before,
                    forall|t: int|
                        0 <= t < j ==> !(vgs.deep_view()[t].id == game@.id
                            || vgs.deep_view()[t].name == game@.name),
                decreases vgs.len() - j,
            {
                if vgs[j].id == game.id || vgs[j].name == game.name {
                    assert(before[i as int].virtual_games[j as int] == vgs[j as int]@);
                    assert(has_virtual_twin(before[i as int], game@));
                    let e = AppError::new(
                        ErrorCode::InvalidInput,
                        String::from_str("该游戏已在此排名中"),
                    );
                    assert(is_duplicate_virtual(e));
                    assert(has_ranking(before, ranking_id@));
                    assert(i == ranking_pos(before, ranking_id@));
                    return Err(e);
                }
                j = j + 1;
            }
            let mut r = rankings[i].clone();
            let ghost vg_before = r.virtual_games.deep_view();
            r.virtual_games.push(game);
            assert(r.virtual_games.deep_view() =~= vg_before.push(game@));
            r.updated_at = String::from_str(now);
            let out = r.clone();
            rankings.set(i, r);
            assert(rankings.deep_view() =~= before.update(i as int, out@));
            Ok(out)
        },
    }
}

/// Removes a virtual game from a ranking and from every tier of it.
pub fn remove_rank_virtual_game(
    rankings: &mut Vec<Ranking>,
    ranking_id: &str,
    game_id: &str,
    now: &str,
) -> (res: Result<Ranking, AppError>)
    ensures
        edits_ranking(
            old(rankings).deep_view(),
            final(rankings).deep_view(),
            ranking_id@,
            result_view(res),
            |r: RankingView|
                RankingView {
                    id: r.id,
                    name: r.name,
                    levels: levels_without(r.levels, game_id@),
                    created_at: r.created_at,
                    updated_at: now@,
                    virtual_games: virtual_without(r.virtual_games, game_id@),
                },
        ),
{
    let ghost before = rankings.deep_view();
    let key = String::from_str(ranking_id);
    let gid = String::from_str(game_id);
    match find_ranking(rankings, &key) {
        None => Err(missing_ranking()),
        Some(i) => {
            let vgs = &rankings[i].virtual_games;
            let ghost s = vgs.deep_view();
            let ghost p = |g: GameView| g.id != game_id@;
            let mut kept: Vec<Game> = Vec::new();
            let mut j: usize = 0;
            while j < vgs.len()
                invariant
                    j <= vgs.len(),
                    s == vgs.deep_view(),
                    gid@ == game_id@,
                    p == (|g: GameView| g.id != game_id@),
                    kept.deep_view() == s.take(j as int).filter(p),
                decreases vgs.len() - j,
            {
                proof {
                    lemma_take_push(s, j as int);
                    lemma_filter_push(s.take(j as int), s[j as int], p);
                }
                if vgs[j].id != gid {
                    let ghost kb = kept.deep_view();
                    kept.push(vgs[j].clone());
                    assert(kept.deep_view() =~= kb.push(s[j as int]));
                }
                j = j + 1;
            }
            assert(s.take(s.len() as int) =~= s);
            let levels = remove_from_levels(&rankings[i].levels, &gid);
            let mut r = rankings[i].clone();
            r.virtual_games = kept;
            r.levels = levels;
            r.updated_at = String::from_str(now);
            let out = r.clone();
            rankings.set(i, r);
            assert(rankings.deep_view() =~= before.update(i as int, out@));
            Ok(out)
        },
    }
}

} // verus!
