use kurisu_gal::models::Game;
use kurisu_gal::stats::get_home_stats;

fn game(name: &str, category: &str, play_time: u64, favorite: bool) -> Game {
    Game {
        id: name.to_lowercase(),
        name: name.to_string(),
        alias: None,
        path: String::new(),
        cover: String::new(),
        category: category.to_string(),
        tags: Vec::new(),
        status: "游玩中".to_string(),
        description: String::new(),
        play_time,
        last_play: None,
        favorite,
        screenshots: Vec::new(),
    }
}

#[test]
fn home_stats_of_an_empty_library() {
    let s = get_home_stats(&Vec::new());
    assert_eq!(s.total_games, 0);
    assert_eq!(s.total_favorites, 0);
    assert_eq!(s.total_play_time, 0);
    assert!(s.category_distribution.is_empty());
    assert!(s.top5_playtime.is_empty());
}

#[test]
fn home_stats_totals_categories_and_top_five() {
    let games = vec![
        game("A", "纯爱", 30, true),
        game("B", "拔作", 0, false),
        game("C", "纯爱", 120, true),
        game("D", "悬疑", 45, false),
        game("E", "纯爱", 45, false),
        game("F", "悬疑", 5, false),
        game("G", "拔作", 200, false),
    ];
    let s = get_home_stats(&games);
    assert_eq!(s.total_games, 7);
    assert_eq!(s.total_favorites, 2);
    assert_eq!(s.total_play_time, 445);
    let dist: Vec<(String, usize)> =
        s.category_distribution.iter().map(|c| (c.name.clone(), c.count)).collect();
    assert_eq!(dist[0], ("纯爱".to_string(), 3));
    assert_eq!(dist.len(), 3);
    assert!(dist.contains(&("拔作".to_string(), 2)));
    assert!(dist.contains(&("悬疑".to_string(), 2)));
    assert_eq!(dist.iter().map(|(_, c)| c).sum::<usize>(), s.total_games);
    let top: Vec<(String, u64)> = s.top5_playtime.iter().map(|t| (t.name.clone(), t.play_time)).collect();
    assert_eq!(
        top,
        vec![
            ("G".to_string(), 200),
            ("C".to_string(), 120),
            ("D".to_string(), 45),
            ("E".to_string(), 45),
            ("A".to_string(), 30),
        ]
    );
    assert_eq!(s.top5_playtime[0].category, "拔作");
}

#[test]
fn top_five_leaves_out_unplayed_games() {
    let games = vec![game("A", "x", 0, false), game("B", "x", 3, false), game("C", "y", 0, false)];
    let s = get_home_stats(&games);
    assert_eq!(s.top5_playtime.len(), 1);
    assert_eq!(s.top5_playtime[0].name, "B");
    assert_eq!(s.category_distribution[0].name, "x");
    assert_eq!(s.category_distribution[0].count, 2);
}
