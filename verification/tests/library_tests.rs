use kurisu_gal::error::ErrorCode;
use kurisu_gal::library::{
    add_game, add_screenshot, batch_update_category, cleanup_invalid, delete_game, delete_screenshot,
    find_game, list_screenshots, quick_update_status, record_session, session_minutes,
    toggle_favorite, update_game,
};
use kurisu_gal::models::Game;

fn game(id: &str, name: &str, path: &str) -> Game {
    Game {
        id: id.to_string(),
        name: name.to_string(),
        alias: None,
        path: path.to_string(),
        cover: String::new(),
        category: "未分类".to_string(),
        tags: Vec::new(),
        status: "未游玩".to_string(),
        description: String::new(),
        play_time: 0,
        last_play: None,
        favorite: false,
        screenshots: Vec::new(),
    }
}

fn ids(games: &[Game]) -> Vec<String> {
    games.iter().map(|g| g.id.clone()).collect()
}

#[test]
fn add_game_appends_and_flags_same_name_and_path() {
    let mut games = vec![game("a", "Clannad", "C:/g/clannad.exe")];
    assert!(!add_game(&mut games, game("b", "Air", "C:/g/air.exe")));
    assert!(add_game(&mut games, game("c", "Clannad", "C:/g/clannad.exe")));
    assert!(!add_game(&mut games, game("d", "Clannad", "C:/other/clannad.exe")));
    assert_eq!(ids(&games), vec!["a", "b", "c", "d"]);
}

#[test]
fn find_game_gives_first_position() {
    let games = vec![game("a", "A", "p"), game("b", "B", "q"), game("b", "B2", "r")];
    assert_eq!(find_game(&games, &"b".to_string()), Some(1));
    assert_eq!(find_game(&games, &"z".to_string()), None);
}

#[test]
fn update_game_replaces_and_reports_stale_cover() {
    let mut first = game("a", "A", "p");
    first.cover = "a.jpg".to_string();
    let mut games = vec![first, game("b", "B", "q")];
    let mut changed = game("a", "A renamed", "p");
    changed.cover = "a.png".to_string();
    let stale = update_game(&mut games, changed).unwrap();
    assert_eq!(stale, Some("a.jpg".to_string()));
    assert_eq!(games[0].name, "A renamed");
    assert_eq!(games[0].cover, "a.png");

    let mut same = game("a", "A again", "p");
    same.cover = "a.png".to_string();
    assert_eq!(update_game(&mut games, same).unwrap(), None);
}

#[test]
fn update_game_of_unknown_id_fails_and_changes_nothing() {
    let mut games = vec![game("a", "A", "p")];
    let err = update_game(&mut games, game("x", "X", "q")).unwrap_err();
    assert_eq!(err.code(), ErrorCode::GameNotFound);
    assert_eq!(games.len(), 1);
    assert_eq!(games[0].name, "A");
}

#[test]
fn delete_game_removes_every_copy_and_returns_cover() {
    let mut g = game("a", "A", "p");
    g.cover = "a.jpg".to_string();
    let mut games = vec![g, game("b", "B", "q"), game("a", "A2", "r")];
    assert_eq!(delete_game(&mut games, "a").unwrap(), "a.jpg");
    assert_eq!(ids(&games), vec!["b"]);
    let err = delete_game(&mut games, "a").unwrap_err();
    assert_eq!(err.code(), ErrorCode::GameNotFound);
    assert_eq!(ids(&games), vec!["b"]);
}

#[test]
fn batch_update_category_counts_listed_games() {
    let mut games = vec![game("a", "A", "p"), game("b", "B", "q"), game("c", "C", "r")];
    let listed = vec!["c".to_string(), "a".to_string(), "zz".to_string()];
    assert_eq!(batch_update_category(&mut games, &listed, "纯爱"), 2);
    assert_eq!(games[0].category, "纯爱");
    assert_eq!(games[1].category, "未分类");
    assert_eq!(games[2].category, "纯爱");
}

#[test]
fn quick_update_status_and_missing_game() {
    let mut games = vec![game("a", "A", "p")];
    quick_update_status(&mut games, "a", "已通关").unwrap();
    assert_eq!(games[0].status, "已通关");
    let err = quick_update_status(&mut games, "b", "搁置").unwrap_err();
    assert_eq!(err.code(), ErrorCode::GameNotFound);
}

#[test]
fn toggle_favorite_twice_restores() {
    let mut games = vec![game("a", "A", "p")];
    assert_eq!(toggle_favorite(&mut games, "a").unwrap(), true);
    assert!(games[0].favorite);
    assert_eq!(toggle_favorite(&mut games, "a").unwrap(), false);
    assert!(!games[0].favorite);
    assert!(toggle_favorite(&mut games, "nope").is_err());
}

#[test]
fn cleanup_invalid_keeps_games_whose_path_exists() {
    let mut games = vec![game("a", "A", "p"), game("b", "B", "q"), game("c", "C", "r")];
    let removed = cleanup_invalid(&mut games, &vec![true, false, false]);
    assert_eq!(removed, 2);
    assert_eq!(ids(&games), vec!["a"]);
}

#[test]
fn screenshots_are_added_listed_and_deleted() {
    let mut games = vec![game("a", "A", "p")];
    assert!(add_screenshot(&mut games, "a", "a_1.png".to_string()));
    assert!(add_screenshot(&mut games, "a", "a_2.png".to_string()));
    assert!(!add_screenshot(&mut games, "b", "b_1.png".to_string()));
    assert_eq!(list_screenshots(&games, "a").unwrap(), vec!["a_1.png", "a_2.png"]);
    assert!(delete_screenshot(&mut games, "a", "a_1.png"));
    assert_eq!(list_screenshots(&games, "a").unwrap(), vec!["a_2.png"]);
    assert_eq!(list_screenshots(&games, "b").unwrap_err().code(), ErrorCode::GameNotFound);
}

#[test]
fn session_minutes_counts_at_least_one() {
    assert_eq!(session_minutes(0), 1);
    assert_eq!(session_minutes(59), 1);
    assert_eq!(session_minutes(60), 1);
    assert_eq!(session_minutes(125), 2);
    assert_eq!(session_minutes(3600), 60);
}

#[test]
fn record_session_adds_time_and_starts_unplayed_game() {
    let mut played = game("b", "B", "q");
    played.status = "已通关".to_string();
    played.play_time = 10;
    let mut games = vec![game("a", "A", "p"), played];
    assert!(record_session(&mut games, "a", 5, "2026-07-21"));
    assert_eq!(games[0].play_time, 5);
    assert_eq!(games[0].status, "游玩中");
    assert_eq!(games[0].last_play, Some("2026-07-21".to_string()));
    assert!(record_session(&mut games, "b", 3, "2026-07-22"));
    assert_eq!(games[1].play_time, 13);
    assert_eq!(games[1].status, "已通关");
    assert!(!record_session(&mut games, "zz", 3, "2026-07-22"));
}
