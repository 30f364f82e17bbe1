use vstd::prelude::*;

verus! {

/// A game of the library.
pub struct Game {
    pub id: String,
    pub name: String,
    pub alias: Option<String>,
    pub path: String,
    /// File name of the cover under the cover directory; empty when there is none.
    pub cover: String,
    pub category: String,
    pub tags: Vec<String>,
    /// One of the play states shown to the user.
    pub status: String,
    pub description: String,
    /// Time played, in minutes.
    pub play_time: u64,
    /// Date of the last session, `YYYY-MM-DD`.
    pub last_play: Option<String>,
    pub favorite: bool,
    /// File names of the screenshots taken of the game.
    pub screenshots: Vec<String>,
}

/// One tier of a ranking.
pub struct RankLevel {
    pub level: i32,
    pub name: String,
    pub game_ids: Vec<String>,
    pub color: String,
}

/// A ranking: ordered tiers that hold game ids, plus games that exist only in it.
pub struct Ranking {
    pub id: String,
    pub name: String,
    pub levels: Vec<RankLevel>,
    pub created_at: String,
    pub updated_at: String,
    pub virtual_games: Vec<Game>,
}

/// The fields that a lookup on Bangumi fills into the form of a game.
pub struct BangumiFillData {
    pub name: String,
    pub name_cn: String,
    pub summary: String,
    /// Data URI of the downloaded cover; empty when there is none.
    pub cover: String,
    pub tags: Vec<String>,
    pub date: String,
}

/// Everything the library stores: the games and the rankings.
pub struct AppData {
    pub games: Vec<Game>,
    pub rankings: Vec<Ranking>,
}

/// The colour a tier gets when none is stored.
pub fn default_color() -> (color: String)
    ensures
        color@ == "#9ca3af"@,
{
    String::from_str("#9ca3af")
}

/// What a game holds, as mathematical values.
pub struct GameView {
    pub id: Seq<char>,
    pub name: Seq<char>,
    pub alias: Option<Seq<char>>,
    pub path: Seq<char>,
    pub cover: Seq<char>,
    pub category: Seq<char>,
    pub tags: Seq<Seq<char>>,
    pub status: Seq<char>,
    pub description: Seq<char>,
    pub play_time: u64,
    pub last_play: Option<Seq<char>>,
    pub favorite: bool,
    pub screenshots: Seq<Seq<char>>,
}

/// What a tier holds, as mathematical values.
pub struct RankLevelView {
    pub level: i32,
    pub name: Seq<char>,
    pub game_ids: Seq<Seq<char>>,
    pub color: Seq<char>,
}

/// What a ranking holds, as mathematical values.
pub struct RankingView {
    pub id: Seq<char>,
    pub name: Seq<char>,
    pub levels: Seq<RankLevelView>,
    pub created_at: Seq<char>,
    pub updated_at: Seq<char>,
    pub virtual_games: Seq<GameView>,
}

/// What the library stores, as mathematical values.
pub struct AppDataView {
    pub games: Seq<GameView>,
    pub rankings: Seq<RankingView>,
}

pub open spec fn opt_view(o: Option<String>) -> Option<Seq<char>> {
    match o {
        Some(s) => Some(s@),
        None => None,
    }
}

impl View for Game {
    type V = GameView;

    open spec fn view(&self) -> GameView {
        GameView {
            id: self.id@,
            name: self.name@,
            alias: opt_view(self.alias),
            path: self.path@,
            cover: self.cover@,
            category: self.category@,
            tags: self.tags.deep_view(),
            status: self.status@,
            description: self.description@,
            play_time: self.play_time,
            last_play: opt_view(self.last_play),
            favorite: self.favorite,
            screenshots: self.screenshots.deep_view(),
        }
    }
}

impl DeepView for Game {
    type V = GameView;

    open spec fn deep_view(&self) -> GameView {
        self@
    }
}

impl View for RankLevel {
    type V = RankLevelView;

    open spec fn view(&self) -> RankLevelView {
        RankLevelView {
            level: self.level,
            name: self.name@,
            game_ids: self.game_ids.deep_view(),
            color: self.color@,
        }
    }
}

impl DeepView for RankLevel {
    type V = RankLevelView;

    open spec fn deep_view(&self) -> RankLevelView {
        self@
    }
}

impl View for Ranking {
    type V = RankingView;

    open spec fn view(&self) -> RankingView {
        RankingView {
            id: self.id@,
            name: self.name@,
            levels: self.levels.deep_view(),
            created_at: self.created_at@,
            updated_at: self.updated_at@,
            virtual_games: self.virtual_games.deep_view(),
        }
    }
}

impl DeepView for Ranking {
    type V = RankingView;

    open spec fn deep_view(&self) -> RankingView {
        self@
    }
}

impl View for AppData {
    type V = AppDataView;

    open spec fn view(&self) -> AppDataView {
        AppDataView { games: self.games.deep_view(), rankings: self.rankings.deep_view() }
    }
}

/// Copies an optional string.
pub fn clone_opt(o: &Option<String>) -> (res: Option<String>)
    ensures
        opt_view(res) == opt_view(*o),
{
    match o {
        Some(s) => Some(s.clone()),
        None => None,
    }
}

/// Copies a list of strings.
pub fn clone_strings(v: &Vec<String>) -> (res: Vec<String>)
    ensures
        res.deep_view() == v.deep_view(),
{
    let res = v.clone();
    proof {
        assert(res.deep_view() =~= v.deep_view());
    }
    res
}

impl Clone for Game {
    fn clone(&self) -> (res: Self)
        ensures
            res@ == self@,
    {
        Game {
            id: self.id.clone(),
            name: self.name.clone(),
            alias: clone_opt(&self.alias),
            path: self.path.clone(),
            cover: self.cover.clone(),
            category: self.category.clone(),
            tags: clone_strings(&self.tags),
            status: self.status.clone(),
            description: self.description.clone(),
            play_time: self.play_time,
            last_play: clone_opt(&self.last_play),
            favorite: self.favorite,
            screenshots: clone_strings(&self.screenshots),
        }
    }
}

impl Clone for RankLevel {
    fn clone(&self) -> (res: Self)
        ensures
            res@ == self@,
    {
        RankLevel {
            level: self.level,
            name: self.name.clone(),
            game_ids: clone_strings(&self.game_ids),
            color: self.color.clone(),
        }
    }
}

impl Clone for Ranking {
    fn clone(&self) -> (res: Self)
        ensures
            res@ == self@,
    {
        let levels = self.levels.clone();
        let virtual_games = self.virtual_games.clone();
        proof {
            assert(levels.deep_view() =~= self.levels.deep_view());
            assert(virtual_games.deep_view() =~= self.virtual_games.deep_view());
        }
        Ranking {
            id: self.id.clone(),
            name: self.name.clone(),
            levels,
            created_at: self.created_at.clone(),
            updated_at: self.updated_at.clone(),
            virtual_games,
        }
    }
}

impl Clone for AppData {
    fn clone(&self) -> (res: Self)
        ensures
            res@ == self@,
    {
        let games = self.games.clone();
        let rankings = self.rankings.clone();
        proof {
            assert(games.deep_view() =~= self.games.deep_view());
            assert(rankings.deep_view() =~= self.rankings.deep_view());
        }
        AppData { games, rankings }
    }
}

} // verus!
