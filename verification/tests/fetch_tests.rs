use kurisu_gal::bangumi_fetch::{fetch_next, start_fetch, FetchAction, FetchEvent, FetchPhase, FetchState};
use kurisu_gal::json::{JsonNumber, JsonValue};
use kurisu_gal::media::{thumb_plan, ThumbPlan};

fn s(text: &str) -> JsonValue {
    JsonValue::Str(text.to_string())
}

fn n(v: u64) -> JsonValue {
    JsonValue::Number(JsonNumber { as_u64: Some(v), f32_bits: (v as f32).to_bits() })
}

fn obj(members: Vec<(&str, JsonValue)>) -> JsonValue {
    JsonValue::Object(members.into_iter().map(|(k, v)| (k.to_string(), v)).collect())
}

fn detail_json(id: u64, large: &str) -> JsonValue {
    obj(vec![
        ("id", n(id)),
        ("name", s("Summer Pockets")),
        ("name_cn", s("夏日口袋")),
        ("images", obj(vec![("large", s(large))])),
    ])
}

fn not_found() -> JsonValue {
    obj(vec![("code", n(404)), ("error", s("Not Found"))])
}

fn step(state: FetchState, event: FetchEvent) -> (FetchState, FetchAction) {
    fetch_next(state, event)
}

fn answered(json: JsonValue) -> FetchEvent {
    FetchEvent::Answered(Ok(json))
}

fn asks(a: &FetchAction, url: &str) -> bool {
    matches!(a, FetchAction::FetchJson(u) if u == url)
}

fn is_sleep(a: &FetchAction) -> bool {
    matches!(a, FetchAction::Sleep(800))
}

#[test]
fn details_then_cover_fill_the_form() {
    let (st, a) = start_fetch(7, None);
    assert!(asks(&a, "https://api.bgm.tv/v0/subjects/7"));
    let (st, a) = step(st, answered(detail_json(7, "https://x/l.jpg")));
    match &a {
        FetchAction::DownloadCover(u) => assert_eq!(u, "https://x/l.jpg"),
        _ => panic!("the cover is downloaded next"),
    }
    let (st, a) = step(st, FetchEvent::CoverDownloaded(Ok(b"GIF89a".to_vec())));
    assert!(matches!(st.phase, FetchPhase::Finished));
    match a {
        FetchAction::Fill(f) => {
            assert_eq!(f.name, "Summer Pockets");
            assert_eq!(f.name_cn, "夏日口袋");
            assert_eq!(f.cover, "data:image/gif;base64,R0lGODlh");
        }
        _ => panic!("the form is filled"),
    }
}

#[test]
fn former_api_answers_when_current_one_does_not() {
    let (st, _) = start_fetch(7, None);
    let (st, a) = step(st, answered(not_found()));
    assert!(asks(&a, "https://api.bgm.tv/subject/7?responseGroup=large"));
    let (st, a) = step(st, answered(detail_json(7, "")));
    assert!(matches!(st.phase, FetchPhase::Finished));
    match a {
        FetchAction::Fill(f) => {
            assert_eq!(f.name, "Summer Pockets");
            assert_eq!(f.cover, "");
        }
        _ => panic!("the form is filled without a cover"),
    }
}

#[test]
fn detail_is_tried_twice_then_fails_without_keyword() {
    let (st, _) = start_fetch(7, None);
    let (st, _) = step(st, FetchEvent::Answered(Err("timeout".to_string())));
    let (st, a) = step(st, FetchEvent::Answered(Err("timeout".to_string())));
    assert!(is_sleep(&a));
    let (st, a) = step(st, FetchEvent::Slept);
    assert!(asks(&a, "https://api.bgm.tv/v0/subjects/7"));
    let (st, _) = step(st, answered(obj(vec![("id", n(7))])));
    let (st, a) = step(st, answered(obj(vec![("id", n(7))])));
    assert!(matches!(st.phase, FetchPhase::Finished));
    match a {
        FetchAction::Fail(m) => assert_eq!(m, "API 返回数据异常：缺少 name/name_cn/summary 字段 (id=7)"),
        _ => panic!("the last error is reported"),
    }
}

#[test]
fn search_fallback_finds_the_game_by_id() {
    let (st, _) = start_fetch(9, Some("夏日".to_string()));
    let (st, _) = step(st, answered(not_found()));
    let (st, _) = step(st, answered(not_found()));
    let (st, _) = step(st, FetchEvent::Slept);
    let (st, _) = step(st, answered(not_found()));
    let (st, a) = step(st, FetchEvent::Answered(Err("e2".to_string())));
    assert!(asks(
        &a,
        "https://api.bgm.tv/search/subject/%E5%A4%8F%E6%97%A5?type=4&responseGroup=large&max_results=25"
    ));
    let list = JsonValue::Array(vec![
        obj(vec![("id", n(3)), ("type", n(4)), ("name", s("other"))]),
        obj(vec![("id", n(9)), ("type", n(4)), ("name", s("found"))]),
    ]);
    let (st, a) = step(st, answered(obj(vec![("list", list)])));
    assert!(matches!(st.phase, FetchPhase::Finished));
    match a {
        FetchAction::Fill(f) => {
            assert_eq!(f.name, "found");
            assert_eq!(f.cover, "");
            assert!(f.tags.is_empty());
        }
        _ => panic!("the found entry fills the form"),
    }
}

#[test]
fn search_without_the_game_reports_the_detail_error() {
    let (st, _) = start_fetch(9, Some("k".to_string()));
    let (st, _) = step(st, answered(not_found()));
    let (st, _) = step(st, FetchEvent::Answered(Err("e1".to_string())));
    let (st, _) = step(st, FetchEvent::Slept);
    let (st, _) = step(st, answered(not_found()));
    let (st, _) = step(st, FetchEvent::Answered(Err("e2".to_string())));
    let (_, a) = step(st, answered(obj(vec![("list", JsonValue::Array(Vec::new()))])));
    match a {
        FetchAction::Fail(m) => assert_eq!(m, "e2"),
        _ => panic!("the detail error is reported"),
    }
}

#[test]
fn failed_cover_downloads_still_fill_the_form() {
    let (st, _) = start_fetch(1, None);
    let (st, _) = step(st, answered(detail_json(1, "https://x/c.jpg")));
    let (st, a) = step(st, FetchEvent::CoverDownloaded(Err("reset".to_string())));
    assert!(is_sleep(&a));
    let (st, a) = step(st, FetchEvent::Slept);
    assert!(matches!(a, FetchAction::DownloadCover(_)));
    let (st, a) = step(st, FetchEvent::CoverDownloaded(Err("reset".to_string())));
    assert!(matches!(st.phase, FetchPhase::Finished));
    match a {
        FetchAction::Fill(f) => assert_eq!(f.cover, ""),
        _ => panic!("the form is filled without a cover"),
    }
}

#[test]
fn thumb_plans() {
    assert!(matches!(thumb_plan(true, false), ThumbPlan::Use));
    assert!(matches!(thumb_plan(false, true), ThumbPlan::Generate));
    assert!(matches!(thumb_plan(false, false), ThumbPlan::Skip));
}
