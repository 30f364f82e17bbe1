use vstd::prelude::*;
use crate::models::{AppData, Game, GameView, Ranking, RankingView};
use crate::path_manager::{games_file, games_only_file, rankings_file, PathManager, StoragePath};

verus! {

/// The file of the former single-file format.
pub fn get_games_path(root: &StoragePath) -> (p: StoragePath)
    ensures
        p@ == root@.push("game_list.json"@),
{
    games_file(root)
}

/// The file that keeps the games.
pub fn get_games_only_path(root: &StoragePath) -> (p: StoragePath)
    ensures
        p@ == root@.push("games.json"@),
{
    games_only_file(root)
}

/// The file that keeps the rankings.
pub fn get_rankings_path(root: &StoragePath) -> (p: StoragePath)
    ensures
        p@ == root@.push("rankings.json"@),
{
    rankings_file(root)
}

/// The file that keeps the settings.
pub fn get_settings_path(mgr: &PathManager) -> (p: StoragePath)
    ensures
        p@ == mgr.config_base@.push("KurisuGal"@).push("Config"@).push("User"@).push(
            "setting.json"@,
        ),
{
    mgr.settings_file()
}

/// Whether the former single file must be split into the games file and the rankings file:
/// only when it exists and not both of the new files do.
pub fn needs_migration(games_exists: bool, rankings_exists: bool, old_exists: bool) -> (m: bool)
    ensures
        m == (!(games_exists && rankings_exists) && old_exists),
{
    if games_exists && rankings_exists {
        return false;
    }
    old_exists
}

/// The data of the library from what its two files held; `None` stands for a file that
/// does not exist, which counts as holding nothing.
pub fn read_games(games: Option<Vec<Game>>, rankings: Option<Vec<Ranking>>) -> (data: AppData)
    ensures
        data.games.deep_view() == match games {
            Some(g) => g.deep_view(),
            None => Seq::empty(),
        },
        data.rankings.deep_view() == match rankings {
            Some(r) => r.deep_view(),
            None => Seq::empty(),
        },
{
    let games = match games {
        Some(g) => g,
        None => {
            let g: Vec<Game> = Vec::new();
            assert(g.deep_view() =~= Seq::<GameView>::empty());
            g
        },
    };
    let rankings = match rankings {
        Some(r) => r,
        None => {
            let r: Vec<Ranking> = Vec::new();
            assert(r.deep_view() =~= Seq::<RankingView>::empty());
            r
        },
    };
    AppData { games, rankings }
}

} // verus!
