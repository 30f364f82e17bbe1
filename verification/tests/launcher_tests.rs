use kurisu_gal::error::ErrorCode;
use kurisu_gal::game_launcher::{
    get_current_running_game_id, get_running_games, process_to_kill, register_running_game,
    register_running_path, unregister_running_game, unregister_running_path, GameProcessManager,
};

fn strings(v: &[&str]) -> Vec<String> {
    v.iter().map(|s| s.to_string()).collect()
}

#[test]
fn registering_a_path_twice_watches_it_once() {
    let mut m = GameProcessManager::new();
    register_running_path(&mut m, "C:/g/a.exe");
    register_running_path(&mut m, "C:/g/a.exe");
    register_running_path(&mut m, "C:/g/b.exe");
    assert_eq!(get_running_games(&m, Vec::new()), vec!["C:/g/a.exe", "C:/g/b.exe"]);
    unregister_running_path(&mut m, "C:/g/a.exe");
    assert_eq!(get_running_games(&m, strings(&["child"])), vec!["child", "C:/g/b.exe"]);
}

#[test]
fn running_game_is_found_while_its_process_runs() {
    let mut m = GameProcessManager::new();
    assert_eq!(get_current_running_game_id(&mut m, &Vec::new()), None);
    register_running_path(&mut m, "C:/g/a.exe");
    register_running_game(&mut m, "g1", "C:/g/a.exe");
    let exes = strings(&["c:/windows/explorer.exe", "C:/g/a.exe"]);
    assert_eq!(get_current_running_game_id(&mut m, &exes), Some("g1".to_string()));
    assert_eq!(get_running_games(&m, Vec::new()), vec!["C:/g/a.exe"]);
}

#[test]
fn watched_paths_without_process_are_dropped() {
    let mut m = GameProcessManager::new();
    register_running_path(&mut m, "C:/g/a.exe");
    register_running_game(&mut m, "g1", "C:/g/a.exe");
    assert_eq!(get_current_running_game_id(&mut m, &strings(&["C:/other.exe"])), Some("g1".to_string()));
    assert!(get_running_games(&m, Vec::new()).is_empty());
}

#[test]
fn unregister_game_undoes_register() {
    let mut m = GameProcessManager::new();
    register_running_game(&mut m, "g1", "C:/g/a.exe");
    register_running_game(&mut m, "g1", "C:/g/b.exe");
    unregister_running_game(&mut m, "g1");
    assert_eq!(get_current_running_game_id(&mut m, &Vec::new()), None);
}

#[test]
fn process_to_kill_finds_first_matching_process() {
    let exes = strings(&["C:/x.exe", "c:/g/a.exe", "C:/g/a.exe"]);
    assert_eq!(process_to_kill(&exes, "c:/g/a.exe", "C:/g/a.exe").unwrap(), 1);
    assert_eq!(process_to_kill(&exes, "zz", "C:/g/a.exe").unwrap(), 2);
    let e = process_to_kill(&exes, "nope", "nope").unwrap_err();
    assert_eq!(e.code(), ErrorCode::GameNotRunning);
    assert_eq!(e.to_text(), "[GameNotRunning] 未找到运行中的游戏进程");
}
