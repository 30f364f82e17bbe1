use kurisu_gal::error::ErrorCode;
use kurisu_gal::models::{Game, Ranking};
use kurisu_gal::rankings::{
    add_rank_level, add_rank_virtual_game, clear_rank_level, create_ranking, default_rank_levels,
    delete_rank_level, delete_ranking, find_ranking, remove_game_from_rank, remove_id,
    remove_rank_virtual_game, set_game_rank, update_rank_level, update_ranking,
};

const NOW: &str = "2026-07-21T10:00:00";
const LATER: &str = "2026-07-21T11:00:00";

fn fresh() -> Vec<Ranking> {
    let mut rankings = Vec::new();
    create_ranking(&mut rankings, "r1".to_string(), "年度".to_string(), NOW);
    rankings
}

fn level_ids(r: &Ranking, k: usize) -> Vec<String> {
    r.levels[k].game_ids.clone()
}

fn numbers(r: &Ranking) -> Vec<i32> {
    r.levels.iter().map(|l| l.level).collect()
}

fn virtual_game(id: &str) -> Game {
    Game {
        id: id.to_string(),
        name: format!("虚拟 {}", id),
        alias: None,
        path: String::new(),
        cover: String::new(),
        category: String::new(),
        tags: Vec::new(),
        status: "未游玩".to_string(),
        description: String::new(),
        play_time: 0,
        last_play: None,
        favorite: false,
        screenshots: Vec::new(),
    }
}

#[test]
fn default_levels_are_the_five_named_tiers() {
    let levels = default_rank_levels();
    let names: Vec<&str> = levels.iter().map(|l| l.name.as_str()).collect();
    assert_eq!(names, vec!["夯", "顶级", "人上人", "NPC", "拉完了"]);
    assert_eq!(levels.iter().map(|l| l.level).collect::<Vec<_>>(), vec![1, 2, 3, 4, 5]);
    assert_eq!(levels[0].color, "rgb(255, 127, 127)");
    assert_eq!(levels[4].color, "rgb(191, 255, 127)");
    assert!(levels.iter().all(|l| l.game_ids.is_empty()));
}

#[test]
fn create_ranking_appends_with_default_tiers() {
    let mut rankings = fresh();
    let out = create_ranking(&mut rankings, "r2".to_string(), "二号".to_string(), LATER);
    assert_eq!(rankings.len(), 2);
    assert_eq!(out.id, "r2");
    assert_eq!(out.created_at, LATER);
    assert_eq!(out.updated_at, LATER);
    assert_eq!(out.levels.len(), 5);
    assert!(out.virtual_games.is_empty());
    assert_eq!(find_ranking(&rankings, &"r2".to_string()), Some(1));
}

#[test]
fn set_game_rank_moves_game_between_tiers() {
    let mut rankings = fresh();
    set_game_rank(&mut rankings, "r1", "g1", 2, NOW).unwrap();
    set_game_rank(&mut rankings, "r1", "g2", 2, NOW).unwrap();
    let out = set_game_rank(&mut rankings, "r1", "g1", 4, LATER).unwrap();
    assert_eq!(level_ids(&out, 1), vec!["g2"]);
    assert_eq!(level_ids(&out, 3), vec!["g1"]);
    assert_eq!(out.updated_at, LATER);
    assert_eq!(level_ids(&rankings[0], 3), vec!["g1"]);
}

#[test]
fn set_game_rank_twice_is_same_as_once() {
    let mut once = fresh();
    let mut twice = fresh();
    set_game_rank(&mut once, "r1", "g1", 3, NOW).unwrap();
    set_game_rank(&mut twice, "r1", "g1", 3, NOW).unwrap();
    set_game_rank(&mut twice, "r1", "g1", 3, NOW).unwrap();
    assert_eq!(level_ids(&once[0], 2), level_ids(&twice[0], 2));
    assert_eq!(level_ids(&twice[0], 2), vec!["g1"]);
}

#[test]
fn set_game_rank_to_missing_tier_only_removes() {
    let mut rankings = fresh();
    set_game_rank(&mut rankings, "r1", "g1", 1, NOW).unwrap();
    let out = set_game_rank(&mut rankings, "r1", "g1", 9, NOW).unwrap();
    assert!(out.levels.iter().all(|l| l.game_ids.is_empty()));
}

#[test]
fn remove_game_from_rank_undoes_set() {
    let mut rankings = fresh();
    set_game_rank(&mut rankings, "r1", "g1", 1, NOW).unwrap();
    let out = remove_game_from_rank(&mut rankings, "r1", "g1", NOW).unwrap();
    assert!(out.levels.iter().all(|l| l.game_ids.is_empty()));
}

#[test]
fn missing_ranking_is_refused_everywhere() {
    let mut rankings = fresh();
    let check = |r: Result<Ranking, kurisu_gal::error::AppError>| {
        let e = match r {
            Err(e) => e,
            Ok(_) => panic!("a missing ranking is an error"),
        };
        assert_eq!(e.code(), ErrorCode::GameNotFound);
        assert_eq!(e.to_text(), "[GameNotFound] 排名不存在");
    };
    check(set_game_rank(&mut rankings, "x", "g", 1, NOW));
    check(remove_game_from_rank(&mut rankings, "x", "g", NOW));
    check(add_rank_level(&mut rankings, "x", "n", "c", 1, NOW));
    check(delete_rank_level(&mut rankings, "x", 1, NOW));
    check(clear_rank_level(&mut rankings, "x", 1, NOW));
    check(update_rank_level(&mut rankings, "x", 1, "n", "c", NOW));
    check(add_rank_virtual_game(&mut rankings, "x", virtual_game("v"), NOW));
    check(remove_rank_virtual_game(&mut rankings, "x", "v", NOW));
    assert!(delete_ranking(&mut rankings, "x").is_err());
    assert_eq!(rankings.len(), 1);
}

#[test]
fn add_rank_level_inserts_and_renumbers() {
    let mut rankings = fresh();
    let out = add_rank_level(&mut rankings, "r1", "新层", "rgb(1, 2, 3)", 2, NOW).unwrap();
    assert_eq!(numbers(&out), vec![1, 2, 3, 4, 5, 6]);
    assert_eq!(out.levels[2].name, "新层");
    assert_eq!(out.levels[2].color, "rgb(1, 2, 3)");
    assert_eq!(out.levels[3].name, "人上人");

    let first = add_rank_level(&mut rankings, "r1", "最前", "c", 0, NOW).unwrap();
    assert_eq!(first.levels[0].name, "最前");
    assert_eq!(numbers(&first), vec![1, 2, 3, 4, 5, 6, 7]);

    let last = add_rank_level(&mut rankings, "r1", "最后", "c", 99, NOW).unwrap();
    assert_eq!(last.levels[7].name, "最后");
    assert_eq!(last.levels[7].level, 100);
}

#[test]
fn delete_rank_level_renumbers_from_one() {
    let mut rankings = fresh();
    set_game_rank(&mut rankings, "r1", "g1", 4, NOW).unwrap();
    let out = delete_rank_level(&mut rankings, "r1", 2, NOW).unwrap();
    assert_eq!(numbers(&out), vec![1, 2, 3, 4]);
    assert_eq!(out.levels[1].name, "人上人");
    assert_eq!(level_ids(&out, 2), vec!["g1"]);
}

#[test]
fn clear_and_update_rank_level() {
    let mut rankings = fresh();
    set_game_rank(&mut rankings, "r1", "g1", 5, NOW).unwrap();
    set_game_rank(&mut rankings, "r1", "g2", 5, NOW).unwrap();
    let cleared = clear_rank_level(&mut rankings, "r1", 5, NOW).unwrap();
    assert!(cleared.levels[4].game_ids.is_empty());
    let renamed = update_rank_level(&mut rankings, "r1", 1, "神作", "gold", LATER).unwrap();
    assert_eq!(renamed.levels[0].name, "神作");
    assert_eq!(renamed.levels[0].color, "gold");
    assert_eq!(renamed.levels[0].level, 1);
    assert_eq!(renamed.updated_at, LATER);
}

#[test]
fn update_ranking_stamps_and_delete_ranking_removes() {
    let mut rankings = fresh();
    let mut changed = rankings[0].clone();
    changed.name = "改名".to_string();
    let out = update_ranking(&mut rankings, changed, LATER).unwrap();
    assert_eq!(out.name, "改名");
    assert_eq!(out.updated_at, LATER);
    assert_eq!(rankings[0].name, "改名");
    delete_ranking(&mut rankings, "r1").unwrap();
    assert!(rankings.is_empty());
}

#[test]
fn virtual_games_are_added_once_and_removed_with_their_places() {
    let mut rankings = fresh();
    add_rank_virtual_game(&mut rankings, "r1", virtual_game("v1"), NOW).unwrap();
    set_game_rank(&mut rankings, "r1", "v1", 3, NOW).unwrap();
    let out = remove_rank_virtual_game(&mut rankings, "r1", "v1", LATER).unwrap();
    assert!(out.virtual_games.is_empty());
    assert!(out.levels.iter().all(|l| l.game_ids.is_empty()));
}

#[test]
fn remove_id_keeps_other_ids_in_order() {
    let ids = vec!["a".to_string(), "b".to_string(), "a".to_string(), "c".to_string()];
    assert_eq!(remove_id(&ids, &"a".to_string()), vec!["b", "c"]);
}

#[test]
fn virtual_game_with_same_id_or_name_is_refused() {
    let mut rankings = fresh();
    add_rank_virtual_game(&mut rankings, "r1", virtual_game("v1"), NOW).unwrap();
    let e = match add_rank_virtual_game(&mut rankings, "r1", virtual_game("v1"), NOW) {
        Err(e) => e,
        Ok(_) => panic!("a twin is refused"),
    };
    assert_eq!(e.code(), ErrorCode::InvalidInput);
    assert_eq!(e.to_text(), "[InvalidInput] 该游戏已在此排名中");
    let mut same_name = virtual_game("v2");
    same_name.name = "虚拟 v1".to_string();
    assert!(add_rank_virtual_game(&mut rankings, "r1", same_name, NOW).is_err());
    assert_eq!(rankings[0].virtual_games.len(), 1);
}
