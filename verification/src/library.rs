use vstd::prelude::*;
use vstd::string::StringExecFns;
use crate::error::{AppError, ErrorCode};
use crate::models::{Game, GameView};
use crate::rankings::{other_id, without, remove_id};
use crate::seq_facts::{lemma_filter_contains, lemma_filter_passes, lemma_filter_push, lemma_take_push};

verus! {

// ==================== Model ====================

pub open spec fn has_game(gs: Seq<GameView>, id: Seq<char>) -> bool {
    exists|i: int| 0 <= i < gs.len() && gs[i].id == id
}

pub open spec fn is_first_game(gs: Seq<GameView>, id: Seq<char>, i: int) -> bool {
    &&& 0 <= i < gs.len()
    &&& gs[i].id == id
    &&& forall|j: int| 0 <= j < i ==> gs[j].id != id
}

/// The position of the first game with the given id.
pub open spec fn game_pos(gs: Seq<GameView>, id: Seq<char>) -> int {
    choose|i: int| is_first_game(gs, id, i)
}

/// The error returned when no game has the requested id.
pub open spec fn is_missing_game(e: AppError) -> bool {
    e.is_business(ErrorCode::GameNotFound, "游戏不存在"@)
}

/// How an operation that edits the first game with a given id relates the games before
/// and after it: the edit is applied there, or, when no game has the id, nothing changes.
pub open spec fn edits_first_game(
    before: Seq<GameView>,
    after: Seq<GameView>,
    id: Seq<char>,
    found: bool,
    edit: spec_fn(GameView) -> GameView,
) -> bool {
    &&& found == has_game(before, id)
    &&& found ==> after == before.update(game_pos(before, id), edit(before[game_pos(before, id)]))
    &&& !found ==> after == before
}

/// The test that keeps the games whose id is not `id`.
pub open spec fn other_game(id: Seq<char>) -> spec_fn(GameView) -> bool {
    |g: GameView| g.id != id
}

/// A game with another value for one of its fields.
pub open spec fn with_category(g: GameView, category: Seq<char>) -> GameView {
    GameView { category, ..g }
}

pub open spec fn with_status(g: GameView, status: Seq<char>) -> GameView {
    GameView { status, ..g }
}

pub open spec fn with_favorite(g: GameView, favorite: bool) -> GameView {
    GameView { favorite, ..g }
}

pub open spec fn with_screenshots(g: GameView, screenshots: Seq<Seq<char>>) -> GameView {
    GameView { screenshots, ..g }
}

/// The state that a game not played yet is in.
pub open spec fn unplayed_status() -> Seq<char> {
    "未游玩"@
}

/// The state that a game being played is in.
pub open spec fn playing_status() -> Seq<char> {
    "游玩中"@
}

/// A game after a session of `minutes` minutes that ended on `today`: the time is added,
/// the date recorded, and a game not played yet becomes one being played.
pub open spec fn after_session(g: GameView, minutes: u64, today: Seq<char>) -> GameView {
    GameView {
        play_time: (g.play_time + minutes) as u64,
        last_play: Some(today),
        status: if g.status == unplayed_status() { playing_status() } else { g.status },
        ..g
    }
}

/// The minutes counted for a session of `secs` seconds: whole minutes, at least one.
pub open spec fn session_minutes_spec(secs: u64) -> u64 {
    if secs / 60 >= 1 { (secs / 60) as u64 } else { 1 }
}

/// The number of games whose id is in `ids`.
pub open spec fn count_listed(gs: Seq<GameView>, ids: Seq<Seq<char>>) -> nat
    decreases gs.len(),
{
    if gs.len() == 0 {
        0
    } else {
        count_listed(gs.drop_last(), ids) + if ids.contains(gs.last().id) { 1nat } else { 0nat }
    }
}

/// The games whose flag is set, in order.
pub open spec fn keep_flagged(gs: Seq<GameView>, flags: Seq<bool>) -> Seq<GameView>
    decreases gs.len(),
{
    if gs.len() == 0 {
        Seq::empty()
    } else {
        let rest = keep_flagged(gs.drop_last(), flags.take(gs.len() - 1));
        if flags[gs.len() - 1] { rest.push(gs.last()) } else { rest }
    }
}

// ==================== Helpers ====================

fn missing_game() -> (e: AppError)
    ensures
        is_missing_game(e),
{
    AppError::new(ErrorCode::GameNotFound, String::from_str("游戏不存在"))
}

/// Position of the first game with the given id.
pub fn find_game(games: &Vec<Game>, id: &String) -> (pos: Option<usize>)
    ensures
        match pos {
            Some(i) => {
                &&& has_game(games.deep_view(), id@)
                &&& is_first_game(games.deep_view(), id@, i as int)
                &&& i == game_pos(games.deep_view(), id@)
            },
            None => !has_game(games.deep_view(), id@),
        },
{
    let ghost gs = games.deep_view();
    let mut i: usize = 0;
    while i < games.len()
        invariant
            i <= games.len(),
            gs == games.deep_view(),
            forall|j: int| 0 <= j < i ==> gs[j].id != id@,
        decreases games.len() - i,
    {
        if games[i].id == *id {
            proof {
                assert(is_first_game(gs, id@, i as int));
                let k = game_pos(gs, id@);
                assert(is_first_game(gs, id@, k));
                assert(k == i);
            }
            return Some(i);
        }
        i = i + 1;
    }
    None
}

/// Puts `g` at position `i`.
fn store_game(games: &mut Vec<Game>, i: usize, g: Game)
    requires
        i < old(games).len(),
    ensures
        final(games).deep_view() == old(games).deep_view().update(i as int, g@),
        final(games).len() == old(games).len(),
{
    let ghost before = games.deep_view();
    let ghost gv = g@;
    games.set(i, g);
    assert(games.deep_view() =~= before.update(i as int, gv));
}

// ==================== Operations ====================

/// Adds a game at the end. Returns whether a game with the same path and name was
/// already there (it is added all the same).
pub fn add_game(games: &mut Vec<Game>, game: Game) -> (possible_duplicate: bool)
    ensures
        final(games).deep_view() == old(games).deep_view().push(game@),
        possible_duplicate == exists|j: int|
            0 <= j < old(games).len() && old(games).deep_view()[j].path == game@.path
                && old(games).deep_view()[j].name == game@.name,
{
    let ghost before = games.deep_view();
    let mut dup = false;
    let mut i: usize = 0;
    while i < games.len()
        invariant
            i <= games.len(),
            before == games.deep_view(),
            dup == exists|j: int|
                0 <= j < i && before[j].path == game@.path && before[j].name == game@.name,
        decreases games.len() - i,
    {
        let m = games[i].path == game.path && games[i].name == game.name;
        proof {
            assert(before[i as int] == games[i as int]@);
            if m {
                assert(before[i as int].path == game@.path && before[i as int].name == game@.name);
            }
        }
        if m {
            dup = true;
        }
        i = i + 1;
    }
    let ghost gv = game@;
    games.push(game);
    assert(games.deep_view() =~= before.push(gv));
    dup
}

/// Replaces the first game with the same id. Returns the cover file that the game had
/// when it had one and the new game names another, so that it can be removed.
pub fn update_game(games: &mut Vec<Game>, game: Game) -> (res: Result<Option<String>, AppError>)
    ensures
        match res {
            Ok(stale) => {
                let before = old(games).deep_view();
                let old_cover = before[game_pos(before, game@.id)].cover;
                &&& has_game(before, game@.id)
                &&& final(games).deep_view() == before.update(game_pos(before, game@.id), game@)
                &&& match stale {
                    Some(c) => c@ == old_cover && old_cover.len() > 0 && old_cover != game@.cover,
                    None => !(old_cover.len() > 0 && old_cover != game@.cover),
                }
            },
            Err(e) => {
                &&& !has_game(old(games).deep_view(), game@.id)
                &&& is_missing_game(e)
                &&& final(games).deep_view() == old(games).deep_view()
            },
        },
{
    match find_game(games, &game.id) {
        None => Err(missing_game()),
        Some(i) => {
            let old_cover = games[i].cover.clone();
            let stale = if !old_cover.as_str().is_empty() && old_cover != game.cover {
                Some(old_cover)
            } else {
                None
            };
            store_game(games, i, game);
            Ok(stale)
        },
    }
}

/// Removes every game with the given id. Returns the cover file of the first of them.
pub fn delete_game(games: &mut Vec<Game>, id: &str) -> (res: Result<String, AppError>)
    ensures
        match res {
            Ok(cover) => {
                let before = old(games).deep_view();
                &&& has_game(before, id@)
                &&& cover@ == before[game_pos(before, id@)].cover
                &&& final(games).deep_view() == before.filter(other_game(id@))
            },
            Err(e) => {
                &&& !has_game(old(games).deep_view(), id@)
                &&& is_missing_game(e)
                &&& final(games).deep_view() == old(games).deep_view()
            },
        },
{
    let key = String::from_str(id);
    let pos = find_game(games, &key);
    match pos {
        None => Err(missing_game()),
        Some(first) => {
            let cover = games[first].cover.clone();
            let ghost s = games.deep_view();
            let ghost p = other_game(id@);
            let mut kept: Vec<Game> = Vec::new();
            let mut i: usize = 0;
            while i < games.len()
                invariant
                    i <= games.len(),
                    s == games.deep_view(),
                    key@ == id@,
                    p == other_game(id@),
                    kept.deep_view() == s.take(i as int).filter(p),
                decreases games.len() - i,
            {
                proof {
                    lemma_take_push(s, i as int);
                    lemma_filter_push(s.take(i as int), s[i as int], p);
                }
                if games[i].id != key {
                    let ghost kb = kept.deep_view();
                    kept.push(games[i].clone());
                    assert(kept.deep_view() =~= kb.push(s[i as int]));
                }
                i = i + 1;
            }
            assert(s.take(s.len() as int) =~= s);
            *games = kept;
            Ok(cover)
        },
    }
}

/// Moves every game whose id is listed into `category`. Returns how many games moved.
pub fn batch_update_category(games: &mut Vec<Game>, game_ids: &Vec<String>, category: &str) -> (count:
    usize)
    ensures
        final(games).len() == old(games).len(),
        forall|i: int|
            0 <= i < old(games).len() ==> #[trigger] final(games).deep_view()[i] == if game_ids.deep_view().contains(
                old(games).deep_view()[i].id,
            ) {
                with_category(old(games).deep_view()[i], category@)
            } else {
                old(games).deep_view()[i]
            },
        count == count_listed(old(games).deep_view(), game_ids.deep_view()),
{
    let ghost before = games.deep_view();
    let ghost ids = game_ids.deep_view();
    let mut count: usize = 0;
    let mut i: usize = 0;
    while i < games.len()
        invariant
            i <= games.len(),
            games.len() == before.len(),
            ids == game_ids.deep_view(),
            count == count_listed(before.take(i as int), ids),
            count <= i,
            forall|j: int|
                0 <= j < i ==> #[trigger] games.deep_view()[j] == if ids.contains(before[j].id) {
                    with_category(before[j], category@)
                } else {
                    before[j]
                },
            forall|j: int| i <= j < games.len() ==> #[trigger] games.deep_view()[j] == before[j],
        decreases games.len() - i,
    {
        proof {
            assert(before.take(i + 1).drop_last() =~= before.take(i as int));
        }
        let mut listed = false;
        let mut k: usize = 0;
        while k < game_ids.len()
            invariant
                k <= game_ids.len(),
                ids == game_ids.deep_view(),
                i < games.len(),
                games.deep_view()[i as int] == before[i as int],
                listed == exists|t: int| 0 <= t < k && ids[t] == before[i as int].id,
            decreases game_ids.len() - k,
        {
            let m = game_ids[k] == games[i].id;
            proof {
                assert(ids[k as int] == game_ids[k as int]@);
                assert(before[i as int].id == games[i as int].id@);
            }
            if m {
                listed = true;
            }
            k = k + 1;
        }
        proof {
            if listed {
                let t = choose|t: int| 0 <= t < k && ids[t] == before[i as int].id;
                assert(ids.contains(before[i as int].id));
            }
            if ids.contains(before[i as int].id) {
                let t = choose|t: int| 0 <= t < ids.len() && ids[t] == before[i as int].id;
                assert(listed);
            }
        }
        if listed {
            let mut g = games[i].clone();
            g.category = String::from_str(category);
            store_game(games, i, g);
            count = count + 1;
        }
        assert(games.len() == before.len());
        i = i + 1;
    }
    assert(before.take(before.len() as int) =~= before);
    count
}

/// Sets the state of the first game with the given id.
pub fn quick_update_status(games: &mut Vec<Game>, game_id: &str, status: &str) -> (res: Result<
    (),
    AppError,
>)
    ensures
        edits_first_game(
            old(games).deep_view(),
            final(games).deep_view(),
            game_id@,
            res is Ok,
            |g: GameView| with_status(g, status@),
        ),
        res matches Err(e) ==> is_missing_game(e),
{
    let key = String::from_str(game_id);
    match find_game(games, &key) {
        None => Err(missing_game()),
        Some(i) => {
            let mut g = games[i].clone();
            g.status = String::from_str(status);
            store_game(games, i, g);
            Ok(())
        },
    }
}

/// Flips the favourite mark of the first game with the given id and returns the new mark.
pub fn toggle_favorite(games: &mut Vec<Game>, game_id: &str) -> (res: Result<bool, AppError>)
    ensures
        edits_first_game(
            old(games).deep_view(),
            final(games).deep_view(),
            game_id@,
            res is Ok,
            |g: GameView| with_favorite(g, !g.favorite),
        ),
        match res {
            Ok(fav) => fav == !old(games).deep_view()[game_pos(
                old(games).deep_view(),
                game_id@,
            )].favorite,
            Err(e) => is_missing_game(e),
        },
{
    let key = String::from_str(game_id);
    match find_game(games, &key) {
        None => Err(missing_game()),
        Some(i) => {
            let mut g = games[i].clone();
            g.favorite = !g.favorite;
            let fav = g.favorite;
            store_game(games, i, g);
            Ok(fav)
        },
    }
}

/// Keeps the games whose flag in `path_exists` is set. Returns how many were removed.
pub fn cleanup_invalid(games: &mut Vec<Game>, path_exists: &Vec<bool>) -> (removed: usize)
    requires
        path_exists.len() == old(games).len(),
    ensures
        final(games).deep_view() == keep_flagged(old(games).deep_view(), path_exists@),
        removed == old(games).len() - final(games).len(),
{
    let ghost s = games.deep_view();
    let mut kept: Vec<Game> = Vec::new();
    let mut i: usize = 0;
    while i < games.len()
        invariant
            i <= games.len(),
            s == games.deep_view(),
            path_exists.len() == games.len(),
            kept.deep_view() == keep_flagged(s.take(i as int), path_exists@.take(i as int)),
            kept.len() <= i,
        decreases games.len() - i,
    {
        proof {
            assert(s.take(i + 1).drop_last() =~= s.take(i as int));
            assert(path_exists@.take(i + 1).take(i as int) =~= path_exists@.take(i as int));
        }
        if path_exists[i] {
            let ghost kb = kept.deep_view();
            kept.push(games[i].clone());
            assert(kept.deep_view() =~= kb.push(s[i as int]));
        }
        i = i + 1;
    }
    assert(s.take(s.len() as int) =~= s);
    assert(path_exists@.take(s.len() as int) =~= path_exists@);
    let removed = games.len() - kept.len();
    *games = kept;
    removed
}

/// The screenshots of the first game with the given id.
pub fn list_screenshots(games: &Vec<Game>, game_id: &str) -> (res: Result<Vec<String>, AppError>)
    ensures
        match res {
            Ok(shots) => has_game(games.deep_view(), game_id@) && shots.deep_view()
                == games.deep_view()[game_pos(games.deep_view(), game_id@)].screenshots,
            Err(e) => !has_game(games.deep_view(), game_id@) && is_missing_game(e),
        },
{
    let key = String::from_str(game_id);
    match find_game(games, &key) {
        None => Err(missing_game()),
        Some(i) => Ok(crate::models::clone_strings(&games[i].screenshots)),
    }
}

/// Adds a screenshot file name to the first game with the given id; returns whether
/// such a game exists.
pub fn add_screenshot(games: &mut Vec<Game>, game_id: &str, filename: String) -> (found: bool)
    ensures
        edits_first_game(
            old(games).deep_view(),
            final(games).deep_view(),
            game_id@,
            found,
            |g: GameView| with_screenshots(g, g.screenshots.push(filename@)),
        ),
{
    let key = String::from_str(game_id);
    match find_game(games, &key) {
        None => false,
        Some(i) => {
            let mut g = games[i].clone();
            let ghost sb = g.screenshots.deep_view();
            let ghost fv = filename@;
            g.screenshots.push(filename);
            assert(g.screenshots.deep_view() =~= sb.push(fv));
            store_game(games, i, g);
            true
        },
    }
}

/// Takes a screenshot file name out of the first game with the given id; returns whether
/// such a game exists.
pub fn delete_screenshot(games: &mut Vec<Game>, game_id: &str, filename: &str) -> (found: bool)
    ensures
        edits_first_game(
            old(games).deep_view(),
            final(games).deep_view(),
            game_id@,
            found,
            |g: GameView| with_screenshots(g, without(g.screenshots, filename@)),
        ),
{
    let key = String::from_str(game_id);
    let name = String::from_str(filename);
    match find_game(games, &key) {
        None => false,
        Some(i) => {
            let mut g = games[i].clone();
            g.screenshots = remove_id(&g.screenshots, &name);
            store_game(games, i, g);
            true
        },
    }
}

/// The minutes counted for a session that lasted `elapsed_secs` seconds.
pub fn session_minutes(elapsed_secs: u64) -> (minutes: u64)
    ensures
        minutes == session_minutes_spec(elapsed_secs),
{
    let m = elapsed_secs / 60;
    if m >= 1 {
        m
    } else {
        1
    }
}

/// Records a finished session in the first game with the given id; returns whether such
/// a game exists.
pub fn record_session(games: &mut Vec<Game>, game_id: &str, minutes: u64, today: &str) -> (found:
    bool)
    requires
        has_game(old(games).deep_view(), game_id@) ==> old(games).deep_view()[game_pos(
            old(games).deep_view(),
            game_id@,
        )].play_time + minutes <= u64::MAX,
    ensures
        edits_first_game(
            old(games).deep_view(),
            final(games).deep_view(),
            game_id@,
            found,
            |g: GameView| after_session(g, minutes, today@),
        ),
{
    let key = String::from_str(game_id);
    match find_game(games, &key) {
        None => false,
        Some(i) => {
            let mut g = games[i].clone();
            g.play_time = g.play_time + minutes;
            g.last_play = Some(String::from_str(today));
            let unplayed = String::from_str("未游玩");
            if g.status == unplayed {
                g.status = String::from_str("游玩中");
            }
            store_game(games, i, g);
            true
        },
    }
}

// ==================== Laws ====================

/// Once a game is deleted no game has its id any more, so deleting it again fails; the
/// other games are all kept.
pub proof fn law_deleted_game_is_gone(gs: Seq<GameView>, id: Seq<char>)
    ensures
        !has_game(gs.filter(other_game(id)), id),
        forall|i: int| 0 <= i < gs.len() && gs[i].id != id ==> gs.filter(other_game(id)).contains(
            #[trigger] gs[i],
        ),
{
    lemma_filter_passes(gs, other_game(id));
    assert forall|i: int| 0 <= i < gs.len() && gs[i].id != id implies gs.filter(other_game(id)).contains(
        #[trigger] gs[i],
    ) by {
        assert(gs.contains(gs[i]));
        lemma_filter_contains(gs, other_game(id), gs[i]);
    }
    if has_game(gs.filter(other_game(id)), id) {
        let k = choose|k: int| 0 <= k < gs.filter(other_game(id)).len() && gs.filter(other_game(id))[k].id == id;
        assert(other_game(id)(gs.filter(other_game(id))[k]));
    }
}

/// Toggling the favourite flag twice leaves the game as it was.
pub proof fn law_toggle_favorite_twice(g: GameView)
    ensures
        with_favorite(with_favorite(g, !g.favorite), !with_favorite(g, !g.favorite).favorite) == g,
{
}

/// Each game beside its flag.
pub open spec fn flag_pairs(gs: Seq<GameView>, flags: Seq<bool>) -> Seq<(GameView, bool)> {
    Seq::new(gs.len(), |i: int| (gs[i], flags[i]))
}

/// A game beside a set flag.
pub open spec fn flag_is_set() -> spec_fn((GameView, bool)) -> bool {
    |p: (GameView, bool)| p.1
}

/// Cleaning up keeps every game whose path exists and no other, in their order: what is
/// left is the list of games with their flags, filtered to the set flags, each taken
/// without its flag. Every game whose flag is set is among those kept.
pub proof fn law_cleanup_keeps_every_valid(gs: Seq<GameView>, flags: Seq<bool>)
    requires
        flags.len() == gs.len(),
    ensures
        keep_flagged(gs, flags) == flag_pairs(gs, flags).filter(flag_is_set()).map_values(
            |p: (GameView, bool)| p.0,
        ),
        forall|i: int| 0 <= i < gs.len() && flags[i] ==> keep_flagged(gs, flags).contains(
            #[trigger] gs[i],
        ),
    decreases gs.len(),
{
    let f = |p: (GameView, bool)| p.0;
    if gs.len() > 0 {
        let n = gs.len() - 1;
        let t = gs.drop_last();
        let ft = flags.take(n);
        law_cleanup_keeps_every_valid(t, ft);
        let rest = keep_flagged(t, ft);
        let out = keep_flagged(gs, flags);
        assert forall|i: int| 0 <= i < gs.len() && flags[i] implies out.contains(
            #[trigger] gs[i],
        ) by {
            if i < n {
                assert(t[i] == gs[i] && ft[i] == flags[i]);
                assert(rest.contains(t[i]));
                let j = choose|j: int| 0 <= j < rest.len() && rest[j] == t[i];
                assert(out[j] == rest[j]);
            } else {
                assert(out[out.len() - 1] == gs[i]);
            }
        }
        let x = (gs.last(), flags[n]);
        assert(flag_pairs(gs, flags) =~= flag_pairs(t, ft).push(x));
        lemma_filter_push(flag_pairs(t, ft), x, flag_is_set());
        if flags[n] {
            assert(flag_pairs(t, ft).filter(flag_is_set()).push(x).map_values(f) =~= flag_pairs(
                t,
                ft,
            ).filter(flag_is_set()).map_values(f).push(gs.last()));
        }
    } else {
        assert(flag_pairs(gs, flags).filter(flag_is_set()) =~= Seq::<(GameView, bool)>::empty()) by {
            reveal(Seq::filter);
        }
        assert(flag_pairs(gs, flags).filter(flag_is_set()).map_values(f) =~= Seq::<
            GameView,
        >::empty());
    }
}

/// The game is one of `gs` whose flag is set.
pub open spec fn flagged_game(x: GameView, gs: Seq<GameView>, flags: Seq<bool>) -> bool {
    exists|i: int| 0 <= i < gs.len() && flags[i] && gs[i] == x
}

/// Cleaning up keeps only games whose path exists, never more than there were.
pub proof fn law_cleanup_keeps_valid(gs: Seq<GameView>, flags: Seq<bool>)
    requires
        flags.len() == gs.len(),
    ensures
        keep_flagged(gs, flags).len() <= gs.len(),
        forall|k: int| 0 <= k < keep_flagged(gs, flags).len() ==> flagged_game(
            #[trigger] keep_flagged(gs, flags)[k],
            gs,
            flags,
        ),
    decreases gs.len(),
{
    if gs.len() > 0 {
        let t = gs.drop_last();
        let ft = flags.take(gs.len() - 1);
        law_cleanup_keeps_valid(t, ft);
        let rest = keep_flagged(t, ft);
        let out = keep_flagged(gs, flags);
        assert forall|k: int| 0 <= k < out.len() implies flagged_game(#[trigger] out[k], gs, flags) by {
            if k < rest.len() {
                assert(out[k] == rest[k]);
                assert(flagged_game(rest[k], t, ft));
                let i = choose|i: int| 0 <= i < t.len() && ft[i] && t[i] == rest[k];
                assert(gs[i] == t[i] && flags[i] == ft[i]);
            } else {
                assert(flags[gs.len() - 1] && gs[gs.len() - 1] == out[k]);
            }
        }
    }
}

} // verus!
