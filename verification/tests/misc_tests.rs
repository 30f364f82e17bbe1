use kurisu_gal::cache::CacheState;
use kurisu_gal::data_store::read_games;
use kurisu_gal::error::{code_name, to_frontend_error, AppError, ErrorCode};
use kurisu_gal::logger::LogCategory;
use kurisu_gal::models::default_color;
use kurisu_gal::settings::{validate_settings, Settings};

fn settings() -> Settings {
    Settings::default()
}

#[test]
fn errors_are_shown_with_their_code() {
    let e = AppError::new(ErrorCode::GameNotFound, "游戏不存在".to_string());
    assert_eq!(e.to_text(), "[GameNotFound] 游戏不存在");
    let e = AppError::wrap(ErrorCode::DataReadFailed, "读取数据文件失败".to_string(), "denied".to_string());
    assert_eq!(e.code(), ErrorCode::DataReadFailed);
    assert_eq!(e.to_text(), "[DataReadFailed] 读取数据文件失败: denied");
    assert_eq!((AppError::from_io_error("boom".to_string())).to_text(), "[InternalError] IO 操作失败: boom");
    assert_eq!(
        (AppError::from_json_error("eof".to_string())).to_text(),
        "[DataSerializeFailed] 数据序列化/反序列化失败: eof"
    );
    assert_eq!(code_name(ErrorCode::StartupConfigFailed), "StartupConfigFailed");
}

#[test]
fn default_settings_are_valid() {
    let s = settings();
    assert_eq!(s.theme, "system");
    assert_eq!(s.window_radius, 14);
    assert!(!s.startup);
    assert_eq!(s.close_action, "tray");
    assert_eq!(s.default_view, "grid");
    assert!(validate_settings(&s, true).is_ok());
}

#[test]
fn settings_rules_in_order() {
    let mut s = settings();
    s.theme = "blue".to_string();
    s.window_radius = 99;
    assert_eq!((validate_settings(&s, true).unwrap_err()).to_text(), "[InvalidInput] 无效的主题设置: blue");
    s.theme = "dark".to_string();
    assert_eq!((validate_settings(&s, true).unwrap_err()).to_text(), "[InvalidInput] 窗口圆角不能超过 50px");
    s.window_radius = 50;
    assert_eq!((validate_settings(&s, false).unwrap_err()).to_text(), "[InvalidInput] 缩放比例必须在 0.5-3.0 之间");
    s.close_action = "hide".to_string();
    assert_eq!((validate_settings(&s, true).unwrap_err()).to_text(), "[InvalidInput] 无效的关闭行为设置: hide");
    s.close_action = "exit".to_string();
    s.default_view = "table".to_string();
    assert_eq!((validate_settings(&s, true).unwrap_err()).to_text(), "[InvalidInput] 无效的默认视图设置: table");
    s.default_view = "list".to_string();
    assert!(validate_settings(&s, true).is_ok());
}

#[test]
fn log_files_and_default_colour() {
    assert_eq!(LogCategory::Operation.file_name(), "operation.log");
    assert_eq!(LogCategory::Game.file_name(), "game.log");
    assert_eq!(LogCategory::Screenshot.file_name(), "screenshot.log");
    assert_eq!(LogCategory::Data.file_name(), "data.log");
    assert_eq!(LogCategory::System.file_name(), "system.log");
    assert_eq!(default_color(), "#9ca3af");
}

#[test]
fn cache_gives_back_what_was_written() {
    let mut cache = CacheState::new();
    assert!(cache.get_cache().is_none());
    let failed = cache.get_cached_games(Err(AppError::new(ErrorCode::DataReadFailed, "x".to_string())));
    assert!(failed.is_err());
    assert!(cache.get_cache().is_none());
    let loaded = cache.get_cached_games(Ok(read_games(None, None)));
    assert!(loaded.unwrap().games.is_empty());
    let mut ranking_list = Vec::new();
    kurisu_gal::rankings::create_ranking(&mut ranking_list, "r".to_string(), "n".to_string(), "t");
    let data = read_games(None, Some(ranking_list));
    cache.update_cache(&data);
    let again = cache.get_cached_games(Err(AppError::new(ErrorCode::DataReadFailed, "ignored".to_string())));
    let again = again.unwrap();
    assert_eq!(again.rankings.len(), 1);
    assert_eq!(again.rankings[0].id, "r");
    assert_eq!(cache.get_cache().unwrap().rankings[0].name, "n");
}

#[test]
fn the_user_sees_only_the_message() {
    let e = AppError::new(ErrorCode::GameNotFound, "游戏不存在".to_string());
    assert_eq!(to_frontend_error(e), "游戏不存在");
    let e = AppError::wrap(ErrorCode::DataReadFailed, "读取数据文件失败".to_string(), "denied".to_string());
    assert_eq!(to_frontend_error(e), "读取数据文件失败");
}
