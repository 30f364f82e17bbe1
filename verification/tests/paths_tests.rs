use kurisu_gal::data_store::{get_games_only_path, get_games_path, get_rankings_path, get_settings_path, needs_migration, read_games};
use kurisu_gal::error::{AppError, ErrorCode};
use kurisu_gal::path_manager::{
    assets_dir, cache_dir, cover_dir, cover_path, games_file, path_config_for, read_covers_batch,
    saves_dir, screenshot_path, screenshot_thumb_path, sound_dir, DataMigrationReport, PathConfig,
    PathManager, StoragePath,
};
use kurisu_gal::utils::{check_path, scan_exe_files, validate_path, Platform, ScanEntry};

fn parts(p: &StoragePath) -> Vec<String> {
    p.parts.clone()
}

fn manager() -> PathManager {
    let mut m = PathManager::new(StoragePath::from_text("/home/u/.config"));
    m.init(StoragePath::from_text("/opt/kurisu"));
    m
}

#[test]
fn config_files_live_under_the_config_base() {
    let m = manager();
    assert_eq!(parts(&m.system_config_dir()), vec!["/home/u/.config", "KurisuGal", "Config", "System"]);
    assert_eq!(parts(&m.path_config_file()), vec!["/home/u/.config", "KurisuGal", "Config", "System", "path_config.json"]);
    assert_eq!(parts(&m.settings_file()), vec!["/home/u/.config", "KurisuGal", "Config", "User", "setting.json"]);
    assert_eq!(parts(&get_settings_path(&m)), parts(&m.settings_file()));
    assert_eq!(parts(&m.operation_log_file()), vec!["/home/u/.config", "KurisuGal", "Logs", "operation_log.jsonl"]);
    assert_eq!(parts(&m.bangumi_trace_file()), vec!["/home/u/.config", "KurisuGal", "Logs", "bangumi_trace.jsonl"]);
    assert_eq!(parts(&m.backup_file("20260721_100000")), vec!["/home/u/.config", "KurisuGal", "Backup", "kurisu_gal_backup_20260721_100000.json"]);
}

#[test]
fn data_root_prefers_a_usable_chosen_directory() {
    let mut m = manager();
    assert_eq!(parts(&m.data_root(true)), vec!["/opt/kurisu", "Data"]);
    m.set_configured_data_root(Some("/mnt/games".to_string()));
    assert_eq!(parts(&m.data_root(true)), vec!["/mnt/games"]);
    assert_eq!(parts(&m.data_root(false)), vec!["/opt/kurisu", "Data"]);
    m.set_configured_data_root(Some(String::new()));
    assert_eq!(parts(&m.data_root(true)), vec!["/opt/kurisu", "Data"]);
    assert_eq!(m.get_configured_data_root(), Some(String::new()));
}

#[test]
fn init_from_config_reads_the_chosen_directory() {
    let mut m = PathManager::new(StoragePath::from_text("/c"));
    m.init_from_config(StoragePath::from_text("/i"), PathConfig::default());
    assert_eq!(m.get_configured_data_root(), None);
    m.init_from_config(StoragePath::from_text("/i"), path_config_for("/d"));
    assert_eq!(m.get_configured_data_root(), Some("/d".to_string()));
    assert_eq!(parts(&m.get_install_dir()), vec!["/i"]);
}

#[test]
fn data_files_live_under_the_data_root() {
    let root = StoragePath::from_text("/data");
    assert_eq!(parts(&games_file(&root)), vec!["/data", "game_list.json"]);
    assert_eq!(parts(&get_games_path(&root)), vec!["/data", "game_list.json"]);
    assert_eq!(parts(&get_games_only_path(&root)), vec!["/data", "games.json"]);
    assert_eq!(parts(&get_rankings_path(&root)), vec!["/data", "rankings.json"]);
    assert_eq!(parts(&cover_dir(&root)), vec!["/data", "CoverArt"]);
    assert_eq!(parts(&cover_path(&root, "g.jpg")), vec!["/data", "CoverArt", "g.jpg"]);
    assert_eq!(parts(&saves_dir(&root)), vec!["/data", "Saves"]);
    assert_eq!(parts(&cache_dir(&root)), vec!["/data", "Cache"]);
    assert_eq!(parts(&screenshot_path(&root, "g", "s.png")), vec!["/data", "Screenshots", "g", "s.png"]);
    assert_eq!(parts(&screenshot_thumb_path(&root, "g", "s.png")), vec!["/data", "Screenshots", "g", "s.png_thumb.jpg"]);
    assert_eq!(parts(&assets_dir(&root)), vec!["/data", "Assets"]);
    assert_eq!(parts(&sound_dir(&root)), vec!["/data", "sound"]);
}

#[test]
fn migration_only_when_old_file_and_new_files_missing() {
    assert!(!needs_migration(true, true, true));
    assert!(needs_migration(true, false, true));
    assert!(needs_migration(false, false, true));
    assert!(!needs_migration(false, false, false));
}

#[test]
fn missing_files_read_as_empty() {
    let data = read_games(None, None);
    assert!(data.games.is_empty());
    assert!(data.rankings.is_empty());
}

#[test]
fn validate_path_refuses_relative_and_unresolved_paths() {
    let e = validate_path("", Ok("/x".to_string())).unwrap_err();
    assert_eq!(e.to_text(), "[PathNotAbsolute] 路径必须是绝对路径: ");
    let e = check_path("games/x", false, Ok("/abs/games/x".to_string())).unwrap_err();
    assert_eq!(e.to_text(), "[PathNotAbsolute] 路径必须是绝对路径: games/x");
    let e = check_path("/nope", true, Err("No such file".to_string())).unwrap_err();
    assert_eq!(e.to_text(), "[PathInvalid] 路径无效或不存在: No such file");
    assert_eq!(check_path("/a/../b", true, Ok("/b".to_string())).unwrap(), "/b");
}

#[test]
fn validate_path_accepts_absolute_paths_on_this_platform() {
    assert_eq!(validate_path("/a/./b", Ok("/a/b".to_string())).unwrap(), "/a/b");
    assert!(validate_path("a/b", Ok("/a/b".to_string())).is_err());
}

#[test]
fn set_data_root_records_the_normalised_path_once_saved() {
    let mut m = manager();
    let e = m.set_data_root("", Ok("/x".to_string()), Ok(())).unwrap_err();
    assert_eq!(e.code(), ErrorCode::PathNotAbsolute);
    assert_eq!(m.get_configured_data_root(), None);
    let failed = AppError::new(ErrorCode::DataWriteFailed, "写入路径配置失败".to_string());
    assert!(m.do_set_data_root("/d", Err(failed)).is_err());
    assert_eq!(m.get_configured_data_root(), None);
    m.do_set_data_root("/d", Ok(())).unwrap();
    assert_eq!(m.get_configured_data_root(), Some("/d".to_string()));
}

fn entry(path: &str, is_file: bool, ext: Option<&str>, exec_bit: bool) -> ScanEntry {
    ScanEntry { path: path.to_string(), is_file, extension: ext.map(|e| e.to_string()), exec_bit }
}

fn sample_entries() -> Vec<ScanEntry> {
    vec![
        entry("/g/a.exe", true, Some("exe"), false),
        entry("/g/sub", false, None, true),
        entry("/g/readme.txt", true, Some("txt"), false),
        entry("/g/run", true, None, true),
        entry("/g/data", true, None, false),
        entry("/g/Game.app", false, Some("app"), true),
        entry("/g/sub/b.exe", true, Some("exe"), true),
        entry("/g/tool.sh", true, Some("sh"), true),
    ]
}

#[test]
fn scan_exe_files_keeps_the_programs_of_the_platform() {
    let entries = sample_entries();
    assert_eq!(scan_exe_files(Platform::Windows, true, Ok("/g".to_string()), &entries).unwrap(), vec!["/g/a.exe", "/g/sub/b.exe"]);
    assert_eq!(scan_exe_files(Platform::Other, true, Ok("/g".to_string()), &entries).unwrap(), vec!["/g/run"]);
    assert_eq!(scan_exe_files(Platform::MacOs, true, Ok("/g".to_string()), &entries).unwrap(), vec!["/g/Game.app"]);
    let e = scan_exe_files(Platform::Windows, false, Ok("/g".to_string()), &entries).unwrap_err();
    assert_eq!(e.to_text(), "[FolderNotFound] 指定的文件夹不存在");
    let e = scan_exe_files(Platform::Other, true, Err("denied".to_string()), &entries).unwrap_err();
    assert_eq!(e.to_text(), "[ScanFailed] 无法解析文件夹路径: denied");
}

#[test]
fn relative_paths_are_never_absolute() {
    for p in ["games/a.exe", "a", "./x", "..\\y"] {
        let e = validate_path(p, Ok("/abs".to_string())).unwrap_err();
        assert_eq!(e.code(), ErrorCode::PathNotAbsolute);
    }
}

#[test]
fn read_covers_batch_takes_first_readable_candidate() {
    let ids = vec!["a".to_string(), "b".to_string(), "c".to_string()];
    let found = vec![
        vec![None, Some("png-a".to_string()), Some("gif-a".to_string()), None, None],
        vec![None, None, None, None, None],
        vec![Some("jpg-c".to_string()), None, None, None, Some("jpeg-c".to_string())],
    ];
    let covers = read_covers_batch(&ids, &found);
    assert_eq!(covers, vec![("a".to_string(), "png-a".to_string()), ("c".to_string(), "jpg-c".to_string())]);
}

#[test]
fn migration_report_adds_up() {
    let mut r = DataMigrationReport::empty();
    r.record_copy(100, false);
    r.record_copy(50, true);
    r.record_error("复制失败".to_string());
    let mut sub = DataMigrationReport::empty();
    sub.record_copy(7, true);
    sub.record_error("另一个".to_string());
    r.absorb(sub);
    assert_eq!(r.files_count, 3);
    assert_eq!(r.covers_count, 2);
    assert_eq!(r.total_bytes, 157);
    assert_eq!(r.errors, vec!["复制失败", "另一个"]);
}

#[test]
fn the_data_directory_set_is_the_one_read_back() {
    let mut m = manager();
    m.set_data_root("/mnt/games", Ok("/mnt/games".to_string()), Ok(())).unwrap();
    assert_eq!(parts(&m.data_root(true)), vec!["/mnt/games"]);
    assert_eq!(parts(&m.data_root(false)), vec!["/opt/kurisu", "Data"]);
}
