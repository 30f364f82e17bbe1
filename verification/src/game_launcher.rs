use vstd::prelude::*;
use vstd::string::StringExecFns;
use crate::error::{AppError, ErrorCode};
use crate::rankings::{other_id, remove_id, without};
use crate::seq_facts::{lemma_filter_contains, lemma_filter_push, lemma_take_push};
use crate::text::{chars_of, find_text, occurs_in};

verus! {

/// A game that was launched and has not exited: its id and the path it was started from.
pub struct RunningGame {
    pub game_id: String,
    pub path: String,
}

/// What the library knows of launched games: the paths being watched and the running games.
pub struct GameProcessManager {
    running_paths: Vec<String>,
    running_games: Vec<RunningGame>,
}

/// The state of a manager, as mathematical values.
pub struct ManagerView {
    pub running_paths: Seq<Seq<char>>,
    pub running_games: Seq<(Seq<char>, Seq<char>)>,
}

impl View for GameProcessManager {
    type V = ManagerView;

    closed spec fn view(&self) -> ManagerView {
        ManagerView {
            running_paths: self.running_paths.deep_view(),
            running_games: Seq::new(
                self.running_games@.len(),
                |i: int| (self.running_games@[i].game_id@, self.running_games@[i].path@),
            ),
        }
    }
}

pub open spec fn no_duplicates(s: Seq<Seq<char>>) -> bool {
    forall|i: int, j: int| 0 <= i < j < s.len() ==> s[i] != s[j]
}

pub open spec fn ids_distinct(gs: Seq<(Seq<char>, Seq<char>)>) -> bool {
    forall|i: int, j: int| 0 <= i < j < gs.len() ==> gs[i].0 != gs[j].0
}

pub open spec fn registered(gs: Seq<(Seq<char>, Seq<char>)>, id: Seq<char>) -> bool {
    exists|i: int| 0 <= i < gs.len() && gs[i].0 == id
}

pub open spec fn entry_pos(gs: Seq<(Seq<char>, Seq<char>)>, id: Seq<char>) -> int {
    choose|i: int| 0 <= i < gs.len() && gs[i].0 == id
}

/// The running games as a map from game id to path.
pub open spec fn games_map(gs: Seq<(Seq<char>, Seq<char>)>) -> Map<Seq<char>, Seq<char>> {
    Map::new(|id: Seq<char>| registered(gs, id), |id: Seq<char>| gs[entry_pos(gs, id)].1)
}

/// A path is among the paths of the running games.
pub open spec fn is_game_path(gs: Seq<(Seq<char>, Seq<char>)>, p: Seq<char>) -> bool {
    exists|i: int| 0 <= i < gs.len() && gs[i].1 == p
}

/// Some process runs from an executable whose path contains `p`.
pub open spec fn has_process_for(exes: Seq<Seq<char>>, p: Seq<char>) -> bool {
    exists|k: int| 0 <= k < exes.len() && occurs_in(exes[k], p)
}

/// A watched path stays watched when it is the path of a running game and some process
/// still runs from it.
pub open spec fn still_running(gs: Seq<(Seq<char>, Seq<char>)>, exes: Seq<Seq<char>>) -> spec_fn(
    Seq<char>,
) -> bool {
    |p: Seq<char>| is_game_path(gs, p) && has_process_for(exes, p)
}

/// The watched paths after a path is registered: it is added at the end unless it is there.
pub open spec fn with_path(ps: Seq<Seq<char>>, p: Seq<char>) -> Seq<Seq<char>> {
    if ps.contains(p) {
        ps
    } else {
        ps.push(p)
    }
}

/// The error returned when no process of the game can be found.
pub open spec fn is_not_running(e: AppError) -> bool {
    e.is_business(ErrorCode::GameNotRunning, "未找到运行中的游戏进程"@)
}

impl GameProcessManager {
    /// No path is watched twice and no game id is registered twice.
    pub open spec fn wf(&self) -> bool {
        no_duplicates(self@.running_paths) && ids_distinct(self@.running_games)
    }

    /// A manager that watches nothing.
    pub fn new() -> (m: Self)
        ensures
            m.wf(),
            m@.running_paths == Seq::<Seq<char>>::empty(),
            m@.running_games == Seq::<(Seq<char>, Seq<char>)>::empty(),
    {
        let m = GameProcessManager { running_paths: Vec::new(), running_games: Vec::new() };
        assert(m@.running_paths =~= Seq::<Seq<char>>::empty());
        assert(m@.running_games =~= Seq::<(Seq<char>, Seq<char>)>::empty());
        m
    }

    /// Starts watching a path, unless it is watched already.
    pub fn register_running(&mut self, path: &str)
        requires
            old(self).wf(),
        ensures
            final(self).wf(),
            final(self)@.running_games == old(self)@.running_games,
            final(self)@.running_paths == with_path(old(self)@.running_paths, path@),
    {
        let ghost ps = self@.running_paths;
        let mut i: usize = 0;
        let key = String::from_str(path);
        while i < self.running_paths.len()
            invariant
                i <= self.running_paths.len(),
                ps == self.running_paths.deep_view(),
                self@ == old(self)@,
                old(self).wf(),
                key@ == path@,
                forall|j: int| 0 <= j < i ==> ps[j] != path@,
            decreases self.running_paths.len() - i,
        {
            if self.running_paths[i] == key {
                assert(ps[i as int] == path@);
                assert(ps.contains(path@));
                return;
            }
            i = i + 1;
        }
        assert(!ps.contains(path@));
        self.running_paths.push(key);
        assert(self@.running_paths =~= ps.push(path@));
        assert forall|a: int, b: int| 0 <= a < b < self@.running_paths.len() implies self@.running_paths[a]
            != self@.running_paths[b] by {
            if b == ps.len() {
                assert(ps[a] != path@);
            }
        }
    }

    /// Stops watching a path.
    pub fn unregister_running(&mut self, path: &str)
        requires
            old(self).wf(),
        ensures
            final(self).wf(),
            final(self)@.running_games == old(self)@.running_games,
            final(self)@.running_paths == without(old(self)@.running_paths, path@),
    {
        let ghost ps = self@.running_paths;
        let key = String::from_str(path);
        let kept = remove_id(&self.running_paths, &key);
        proof {
            let p = other_id(path@);
            assert forall|i: int, j: int| 0 <= i < j < kept.deep_view().len() implies kept.deep_view()[i]
                != kept.deep_view()[j] by {
                lemma_filter_keeps_distinct(ps, p, i, j);
            }
        }
        self.running_paths = kept;
    }

    /// Records that a game runs from a path (replacing what was recorded for that game).
    pub fn register_game(&mut self, game_id: &str, path: &str)
        requires
            old(self).wf(),
        ensures
            final(self).wf(),
            final(self)@.running_paths == old(self)@.running_paths,
            games_map(final(self)@.running_games) == games_map(old(self)@.running_games).insert(
                game_id@,
                path@,
            ),
    {
        let ghost gs = self@.running_games;
        let key = String::from_str(game_id);
        let mut i: usize = 0;
        while i < self.running_games.len()
            invariant
                i <= self.running_games.len(),
                gs == self@.running_games,
                self@ == old(self)@,
                old(self).wf(),
                key@ == game_id@,
                forall|j: int| 0 <= j < i ==> gs[j].0 != game_id@,
            decreases self.running_games.len() - i,
        {
            if self.running_games[i].game_id == key {
                let entry = RunningGame { game_id: key, path: String::from_str(path) };
                self.running_games.set(i, entry);
                proof {
                    let ng = self@.running_games;
                    assert(gs[i as int].0 == game_id@);
                    assert(ng =~= gs.update(i as int, (game_id@, path@)));
                    lemma_map_after_update(gs, i as int, path@);
                }
                return;
            }
            i = i + 1;
        }
        let entry = RunningGame { game_id: key, path: String::from_str(path) };
        self.running_games.push(entry);
        proof {
            let ng = self@.running_games;
            assert(ng =~= gs.push((game_id@, path@)));
            assert(!registered(gs, game_id@));
            lemma_map_after_push(gs, game_id@, path@);
        }
    }

    /// Forgets a running game.
    pub fn unregister_game(&mut self, game_id: &str)
        requires
            old(self).wf(),
        ensures
            final(self).wf(),
            final(self)@.running_paths == old(self)@.running_paths,
            games_map(final(self)@.running_games) == games_map(old(self)@.running_games).remove(
                game_id@,
            ),
    {
        let ghost gs = self@.running_games;
        let key = String::from_str(game_id);
        let mut kept: Vec<RunningGame> = Vec::new();
        let ghost mut src: Seq<int> = Seq::empty();
        let mut i: usize = 0;
        while i < self.running_games.len()
            invariant
                i <= self.running_games.len(),
                gs == self@.running_games,
                self@ == old(self)@,
                old(self).wf(),
                ids_distinct(gs),
                key@ == game_id@,
                src.len() == kept@.len(),
                forall|t: int| 0 <= t < src.len() ==> 0 <= #[trigger] src[t] < i,
                forall|t: int, u: int| 0 <= t < u < src.len() ==> src[t] < src[u],
                forall|t: int|
                    0 <= t < src.len() ==> (#[trigger] kept@[t].game_id@, kept@[t].path@)
                        == gs[src[t]] && gs[src[t]].0 != game_id@,
                forall|j: int|
                    0 <= j < i && gs[j].0 != game_id@ ==> exists|t: int|
                        0 <= t < src.len() && src[t] == j,
            decreases self.running_games.len() - i,
        {
            if self.running_games[i].game_id != key {
                let e = RunningGame {
                    game_id: self.running_games[i].game_id.clone(),
                    path: self.running_games[i].path.clone(),
                };
                let ghost kb = kept@;
                kept.push(e);
                proof {
                    assert(gs[i as int] == (e.game_id@, e.path@));
                    let src_old = src;
                    src = src.push(i as int);
                    assert(src[src.len() - 1] == i);
                    assert forall|t: int| 0 <= t < src.len() implies (#[trigger] kept@[t].game_id@,
                        kept@[t].path@) == gs[src[t]] && gs[src[t]].0 != game_id@ by {
                        if t < src.len() - 1 {
                            assert(kept@[t] == kb[t]);
                        }
                    }
                    assert forall|j: int| 0 <= j < i + 1 && gs[j].0 != game_id@ implies exists|t: int|
                        0 <= t < src.len() && src[t] == j by {
                        if j == i {
                            assert(src[src.len() - 1] == j);
                        } else {
                            let t = choose|t: int| 0 <= t < src_old.len() && src_old[t] == j;
                            assert(src[t] == j);
                        }
                    }
                }
            }
            i = i + 1;
        }
        let ghost ng = Seq::new(
            kept@.len(),
            |t: int| (kept@[t].game_id@, kept@[t].path@),
        );
        proof {
            assert forall|t: int, u: int| 0 <= t < u < ng.len() implies ng[t].0 != ng[u].0 by {
                assert(ng[t] == gs[src[t]]);
                assert(ng[u] == gs[src[u]]);
            }
            let m0 = games_map(gs).remove(game_id@);
            let m1 = games_map(ng);
            assert forall|id: Seq<char>| #[trigger] m1.dom().contains(id) <==> m0.dom().contains(id) by {
                if registered(ng, id) {
                    let t = choose|t: int| 0 <= t < ng.len() && ng[t].0 == id;
                    assert(gs[src[t]].0 == id);
                }
                if registered(gs, id) && id != game_id@ {
                    let j = choose|j: int| 0 <= j < gs.len() && gs[j].0 == id;
                    let t = choose|t: int| 0 <= t < src.len() && src[t] == j;
                    assert(ng[t].0 == id);
                }
            }
            assert forall|id: Seq<char>| #[trigger] m1.dom().contains(id) implies m1[id] == m0[id] by {
                let t = entry_pos(ng, id);
                let j = entry_pos(gs, id);
                assert(ng[t] == gs[src[t]]);
                assert(gs[src[t]].0 == id);
                assert(src[t] == j);
            }
            assert(m1 =~= m0);
        }
        self.running_games = kept;
        assert(self@.running_games =~= ng);
    }

    /// The watched paths after leaving out those that no longer run: a path stays when it is
    /// the path of a running game and some process runs from an executable whose path contains
    /// it. `process_exes` are the executable paths of the processes of the system. Returns the
    /// id of the first running game, if any.
    pub fn get_running_game_id(&mut self, process_exes: &Vec<String>) -> (id: Option<String>)
        requires
            old(self).wf(),
        ensures
            final(self).wf(),
            final(self)@.running_games == old(self)@.running_games,
            final(self)@.running_paths == old(self)@.running_paths.filter(
                still_running(old(self)@.running_games, process_exes.deep_view()),
            ),
            match id {
                Some(g) => old(self)@.running_games.len() > 0 && g@ == old(
                    self,
                )@.running_games[0].0 && games_map(old(self)@.running_games).dom().contains(g@),
                None => old(self)@.running_games.len() == 0 && games_map(
                    old(self)@.running_games,
                ).dom() == Set::<Seq<char>>::empty(),
            },
    {
        let ghost ps = self@.running_paths;
        let ghost gs = self@.running_games;
        let ghost exes = process_exes.deep_view();
        let ghost pred = still_running(gs, exes);
        let mut kept: Vec<String> = Vec::new();
        let mut i: usize = 0;
        while i < self.running_paths.len()
            invariant
                i <= self.running_paths.len(),
                ps == self.running_paths.deep_view(),
                gs == self@.running_games,
                exes == process_exes.deep_view(),
                pred == still_running(gs, exes),
                kept.deep_view() == ps.take(i as int).filter(pred),
            decreases self.running_paths.len() - i,
        {
            proof {
                lemma_take_push(ps, i as int);
                lemma_filter_push(ps.take(i as int), ps[i as int], pred);
            }
            let p = &self.running_paths[i];
            let keep = self.is_game_path(p) && process_runs_from(process_exes, p);
            if keep {
                let ghost kb = kept.deep_view();
                kept.push(p.clone());
                assert(kept.deep_view() =~= kb.push(ps[i as int]));
            }
            i = i + 1;
        }
        assert(ps.take(ps.len() as int) =~= ps);
        proof {
            assert forall|a: int, b: int| 0 <= a < b < kept.deep_view().len() implies kept.deep_view()[a]
                != kept.deep_view()[b] by {
                lemma_filter_keeps_distinct(ps, pred, a, b);
            }
        }
        self.running_paths = kept;
        if self.running_games.len() == 0 {
            assert(games_map(gs).dom() =~= Set::<Seq<char>>::empty());
            None
        } else {
            assert(registered(gs, gs[0].0));
            Some(self.running_games[0].game_id.clone())
        }
    }

    /// Whether a path is the path of a running game.
    fn is_game_path(&self, p: &String) -> (b: bool)
        ensures
            b == is_game_path(self@.running_games, p@),
    {
        let mut i: usize = 0;
        while i < self.running_games.len()
            invariant
                i <= self.running_games.len(),
                forall|j: int| 0 <= j < i ==> self@.running_games[j].1 != p@,
            decreases self.running_games.len() - i,
        {
            if self.running_games[i].path == *p {
                assert(self@.running_games[i as int].1 == p@);
                return true;
            }
            i = i + 1;
        }
        false
    }

    /// The paths of the live child processes, followed by the watched paths.
    pub fn running_paths(&self, live_child_paths: Vec<String>) -> (all: Vec<String>)
        ensures
            all.deep_view() == live_child_paths.deep_view() + self@.running_paths,
    {
        let mut all = live_child_paths;
        let ghost start = all.deep_view();
        let mut i: usize = 0;
        while i < self.running_paths.len()
            invariant
                i <= self.running_paths.len(),
                all.deep_view() =~= start + self@.running_paths.take(i as int),
            decreases self.running_paths.len() - i,
        {
            let ghost before = all.deep_view();
            all.push(self.running_paths[i].clone());
            assert(self@.running_paths.take(i + 1) =~= self@.running_paths.take(i as int).push(
                self@.running_paths[i as int],
            ));
            assert(all.deep_view() =~= before.push(self@.running_paths[i as int]));
            i = i + 1;
        }
        assert(self@.running_paths.take(self@.running_paths.len() as int) =~= self@.running_paths);
        all
    }
}

/// Whether some process runs from an executable whose path contains `p`.
fn process_runs_from(exes: &Vec<String>, p: &String) -> (b: bool)
    ensures
        b == has_process_for(exes.deep_view(), p@),
{
    let pat = chars_of(p.as_str());
    let mut k: usize = 0;
    while k < exes.len()
        invariant
            k <= exes.len(),
            pat@ == p@,
            forall|t: int| 0 <= t < k ==> !occurs_in(exes.deep_view()[t], p@),
        decreases exes.len() - k,
    {
        let cs = chars_of(exes[k].as_str());
        if find_text(&cs, &pat).is_some() {
            assert(occurs_in(exes.deep_view()[k as int], p@));
            return true;
        }
        k = k + 1;
    }
    false
}

/// Filtering keeps distinct elements distinct.
proof fn lemma_filter_keeps_distinct(s: Seq<Seq<char>>, p: spec_fn(Seq<char>) -> bool, a: int, b: int)
    requires
        no_duplicates(s),
        0 <= a < b < s.filter(p).len(),
    ensures
        s.filter(p)[a] != s.filter(p)[b],
    decreases s.len(),
{
    reveal(Seq::filter);
    if s.len() > 0 {
        let rest = s.drop_last();
        assert forall|i: int, j: int| 0 <= i < j < rest.len() implies rest[i] != rest[j] by {
            assert(rest[i] == s[i] && rest[j] == s[j]);
        }
        if p(s.last()) && b == s.filter(p).len() - 1 {
            assert(s.filter(p)[b] == s.last());
            assert(s.filter(p)[a] == rest.filter(p)[a]);
            lemma_filter_contains(rest, p, rest.filter(p)[a]);
            assert(rest.filter(p).contains(rest.filter(p)[a]));
            let k = choose|k: int| 0 <= k < rest.len() && rest[k] == rest.filter(p)[a];
            if s.filter(p)[a] == s.filter(p)[b] {
                assert(s[k] == s[s.len() - 1]);
                assert(false);
            }
        } else {
            lemma_filter_keeps_distinct(rest, p, a, b);
        }
    }
}

/// Replacing the path of a registered game changes the map at that game only.
proof fn lemma_map_after_update(gs: Seq<(Seq<char>, Seq<char>)>, i: int, path: Seq<char>)
    requires
        ids_distinct(gs),
        0 <= i < gs.len(),
    ensures
        ids_distinct(gs.update(i, (gs[i].0, path))),
        games_map(gs.update(i, (gs[i].0, path))) == games_map(gs).insert(gs[i].0, path),
{
    let ng = gs.update(i, (gs[i].0, path));
    let m0 = games_map(gs).insert(gs[i].0, path);
    let m1 = games_map(ng);
    assert forall|id: Seq<char>| #[trigger] m1.dom().contains(id) <==> m0.dom().contains(id) by {
        if registered(ng, id) {
            let t = choose|t: int| 0 <= t < ng.len() && ng[t].0 == id;
            assert(gs[t].0 == id);
        }
        if registered(gs, id) {
            let t = choose|t: int| 0 <= t < gs.len() && gs[t].0 == id;
            assert(ng[t].0 == id);
        }
        if id == gs[i].0 {
            assert(ng[i].0 == id);
        }
    }
    assert forall|id: Seq<char>| #[trigger] m1.dom().contains(id) implies m1[id] == m0[id] by {
        let t = entry_pos(ng, id);
        if id == gs[i].0 {
            assert(t == i);
        } else {
            let j = entry_pos(gs, id);
            assert(gs[t].0 == id);
            assert(j == t);
        }
    }
    assert(m1 =~= m0);
}

/// Adding an unregistered game adds it to the map.
proof fn lemma_map_after_push(gs: Seq<(Seq<char>, Seq<char>)>, id: Seq<char>, path: Seq<char>)
    requires
        ids_distinct(gs),
        !registered(gs, id),
    ensures
        ids_distinct(gs.push((id, path))),
        games_map(gs.push((id, path))) == games_map(gs).insert(id, path),
{
    let ng = gs.push((id, path));
    let m0 = games_map(gs).insert(id, path);
    let m1 = games_map(ng);
    assert forall|a: int, b: int| 0 <= a < b < ng.len() implies ng[a].0 != ng[b].0 by {
        if b == gs.len() {
            assert(gs[a].0 != id);
        }
    }
    assert forall|k: Seq<char>| #[trigger] m1.dom().contains(k) <==> m0.dom().contains(k) by {
        if registered(ng, k) {
            let t = choose|t: int| 0 <= t < ng.len() && ng[t].0 == k;
            if t < gs.len() {
                assert(gs[t].0 == k);
            }
        }
        if registered(gs, k) {
            let t = choose|t: int| 0 <= t < gs.len() && gs[t].0 == k;
            assert(ng[t].0 == k);
        }
        if k == id {
            assert(ng[gs.len() as int].0 == k);
        }
    }
    assert forall|k: Seq<char>| #[trigger] m1.dom().contains(k) implies m1[k] == m0[k] by {
        let t = entry_pos(ng, k);
        if k == id {
            assert(t == gs.len());
        } else {
            let j = entry_pos(gs, k);
            assert(gs[j].0 == k);
            assert(ng[j].0 == k);
            assert(j == t);
        }
    }
    assert(m1 =~= m0);
}

/// The process to end for a game: the first whose executable path is the normalised path
/// or the path as given.
pub fn process_to_kill(process_exes: &Vec<String>, normalized: &str, path: &str) -> (res: Result<
    usize,
    AppError,
>)
    ensures
        match res {
            Ok(k) => {
                &&& k < process_exes.len()
                &&& process_exes.deep_view()[k as int] == normalized@ || process_exes.deep_view()[k as int]
                    == path@
                &&& forall|t: int|
                    0 <= t < k ==> process_exes.deep_view()[t] != normalized@
                        && process_exes.deep_view()[t] != path@
            },
            Err(e) => is_not_running(e) && forall|t: int|
                0 <= t < process_exes.len() ==> process_exes.deep_view()[t] != normalized@
                    && process_exes.deep_view()[t] != path@,
        },
{
    let n = String::from_str(normalized);
    let p = String::from_str(path);
    let mut k: usize = 0;
    while k < process_exes.len()
        invariant
            k <= process_exes.len(),
            n@ == normalized@,
            p@ == path@,
            forall|t: int|
                0 <= t < k ==> process_exes.deep_view()[t] != normalized@
                    && process_exes.deep_view()[t] != path@,
        decreases process_exes.len() - k,
    {
        if process_exes[k] == n || process_exes[k] == p {
            return Ok(k);
        }
        k = k + 1;
    }
    Err(AppError::new(ErrorCode::GameNotRunning, String::from_str("未找到运行中的游戏进程")))
}


// ==================== Operations on the shared manager ====================

/// Starts watching a path in the manager.
pub fn register_running_path(mgr: &mut GameProcessManager, path: &str)
    requires
        old(mgr).wf(),
    ensures
        final(mgr).wf(),
        final(mgr)@.running_games == old(mgr)@.running_games,
        final(mgr)@.running_paths == with_path(old(mgr)@.running_paths, path@),
{
    mgr.register_running(path);
}

/// Stops watching a path in the manager.
pub fn unregister_running_path(mgr: &mut GameProcessManager, path: &str)
    requires
        old(mgr).wf(),
    ensures
        final(mgr).wf(),
        final(mgr)@.running_games == old(mgr)@.running_games,
        final(mgr)@.running_paths == without(old(mgr)@.running_paths, path@),
{
    mgr.unregister_running(path);
}

/// The paths of all running games: those of the live child processes, then the watched ones.
pub fn get_running_games(mgr: &GameProcessManager, live_child_paths: Vec<String>) -> (all: Vec<
    String,
>)
    ensures
        all.deep_view() == live_child_paths.deep_view() + mgr@.running_paths,
{
    mgr.running_paths(live_child_paths)
}

/// Records in the manager that a game runs from a path.
pub fn register_running_game(mgr: &mut GameProcessManager, game_id: &str, path: &str)
    requires
        old(mgr).wf(),
    ensures
        final(mgr).wf(),
        final(mgr)@.running_paths == old(mgr)@.running_paths,
        games_map(final(mgr)@.running_games) == games_map(old(mgr)@.running_games).insert(
            game_id@,
            path@,
        ),
{
    mgr.register_game(game_id, path);
}

/// Forgets a running game in the manager.
pub fn unregister_running_game(mgr: &mut GameProcessManager, game_id: &str)
    requires
        old(mgr).wf(),
    ensures
        final(mgr).wf(),
        final(mgr)@.running_paths == old(mgr)@.running_paths,
        games_map(final(mgr)@.running_games) == games_map(old(mgr)@.running_games).remove(game_id@),
{
    mgr.unregister_game(game_id);
}

/// The id of the game that runs now, after the watched paths are brought up to date with
/// the executables of the processes of the system.
pub fn get_current_running_game_id(mgr: &mut GameProcessManager, process_exes: &Vec<String>) -> (id:
    Option<String>)
    requires
        old(mgr).wf(),
    ensures
        final(mgr).wf(),
        final(mgr)@.running_games == old(mgr)@.running_games,
        final(mgr)@.running_paths == old(mgr)@.running_paths.filter(
            still_running(old(mgr)@.running_games, process_exes.deep_view()),
        ),
        match id {
            Some(g) => games_map(old(mgr)@.running_games).dom().contains(g@) && g@ == old(
                mgr,
            )@.running_games[0].0,
            None => games_map(old(mgr)@.running_games).dom() == Set::<Seq<char>>::empty(),
        },
{
    mgr.get_running_game_id(process_exes)
}

// ==================== Laws ====================

/// Registering a path twice is registering it once, and afterwards the path is watched.
pub proof fn law_register_path_idempotent(ps: Seq<Seq<char>>, p: Seq<char>)
    ensures
        with_path(with_path(ps, p), p) == with_path(ps, p),
        with_path(ps, p).contains(p),
{
    if !ps.contains(p) {
        assert(ps.push(p)[ps.len() as int] == p);
    }
}

/// Unregistering a path undoes registering it, when it was not watched before.
pub proof fn law_unregister_undoes_register(ps: Seq<Seq<char>>, p: Seq<char>)
    requires
        !ps.contains(p),
    ensures
        without(with_path(ps, p), p) == ps,
{
    assert forall|i: int| 0 <= i < ps.len() implies other_id(p)(ps[i]) by {
        assert(ps.contains(ps[i]));
    }
    crate::seq_facts::lemma_filter_all(ps, other_id(p));
    lemma_filter_push(ps, p, other_id(p));
}

/// Forgetting a game undoes recording it, when it was not recorded before; after recording,
/// the game runs from the recorded path.
pub proof fn law_unregister_game_undoes_register(
    m: Map<Seq<char>, Seq<char>>,
    id: Seq<char>,
    path: Seq<char>,
)
    requires
        !m.dom().contains(id),
    ensures
        m.insert(id, path).remove(id) == m,
        m.insert(id, path).dom().contains(id) && m.insert(id, path)[id] == path,
{
    assert(m.insert(id, path).remove(id) =~= m);
}

} // verus!
