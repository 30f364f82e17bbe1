use kurisu_gal::bangumi::{api_answer, cover_answer, cover_failure_text, preview, read_failure_text, request_failure_text, SendFailure};
use kurisu_gal::bangumi::{
    check_api_error, cover_download_url, cover_url, detail_from_legacy, detail_from_search,
    detail_from_v0, display_name, fill_data, legacy_detail_url, parse_detail_item,
    parse_subject_item, search_results, search_url, v0_detail_url,
};
use kurisu_gal::json::{get_img, get_str, get_u32, JsonNumber, JsonValue};

fn s(text: &str) -> JsonValue {
    JsonValue::Str(text.to_string())
}

fn n(v: u64) -> JsonValue {
    JsonValue::Number(JsonNumber { as_u64: Some(v), f32_bits: (v as f32).to_bits() })
}

fn f(v: f64) -> JsonValue {
    JsonValue::Number(JsonNumber { as_u64: None, f32_bits: (v as f32).to_bits() })
}

fn obj(members: Vec<(&str, JsonValue)>) -> JsonValue {
    JsonValue::Object(members.into_iter().map(|(k, v)| (k.to_string(), v)).collect())
}

fn tag(name: &str, count: u64) -> JsonValue {
    obj(vec![("name", s(name)), ("count", n(count))])
}

fn entry(id: u64, kind: u64, name: &str) -> JsonValue {
    obj(vec![
        ("id", n(id)),
        ("type", n(kind)),
        ("name", s(name)),
        ("name_cn", s("中文名")),
        ("summary", s("简介")),
        ("air_date", s("2004-04-28")),
        ("images", obj(vec![("medium", s("http://lain.bgm.tv/m.jpg")), ("large", s("http://lain.bgm.tv/l.jpg"))])),
        ("rating", obj(vec![("score", f(8.5)), ("rank", n(12))])),
    ])
}

#[test]
fn json_getters_fall_back_to_defaults() {
    let v = obj(vec![("a", s("x")), ("b", n(7)), ("c", JsonValue::Null)]);
    assert_eq!(get_str(&v, "a"), "x");
    assert_eq!(get_str(&v, "b"), "");
    assert_eq!(get_str(&v, "zz"), "");
    assert_eq!(get_u32(&v, "b"), 7);
    assert_eq!(get_u32(&v, "a"), 0);
    let img = obj(vec![("images", obj(vec![("large", s("L"))]))]);
    assert_eq!(get_img(&img, "images", "large"), "L");
    assert_eq!(get_img(&img, "images", "small"), "");
}

#[test]
fn parse_subject_item_reads_fields() {
    let item = parse_subject_item(&entry(42, 4, "CLANNAD"));
    assert_eq!(item.id, 42);
    assert_eq!(item.name, "CLANNAD");
    assert_eq!(item.name_cn, "中文名");
    assert_eq!(item.date, "2004-04-28");
    assert_eq!(item.image, "http://lain.bgm.tv/m.jpg");
    assert_eq!(item.image_large, "http://lain.bgm.tv/l.jpg");
    assert_eq!(f32::from_bits(item.score_bits), 8.5);
    assert_eq!(item.rank, 12);
}

#[test]
fn parse_subject_item_prefers_top_level_rank_and_falls_back_to_date() {
    let item = parse_subject_item(&obj(vec![
        ("id", n(1)),
        ("date", s("2020-01-01")),
        ("rank", n(3)),
        ("rating", obj(vec![("rank", n(99))])),
    ]));
    assert_eq!(item.date, "2020-01-01");
    assert_eq!(item.rank, 3);
    assert_eq!(item.score_bits, 0);
}

#[test]
fn parse_detail_item_keeps_first_ten_frequent_tags() {
    let mut tags = vec![tag("rare", 2)];
    for k in 0..12 {
        tags.push(tag(&format!("t{}", k), 3 + k));
    }
    let detail = parse_detail_item(&obj(vec![
        ("id", n(5)),
        ("name", s("Air")),
        ("platform", s("PC")),
        ("tags", JsonValue::Array(tags)),
    ]));
    assert_eq!(detail.id, 5);
    assert_eq!(detail.platform, "PC");
    assert_eq!(detail.tags.len(), 10);
    assert_eq!(detail.tags[0], "t0");
    assert_eq!(detail.tags[9], "t9");
}

#[test]
fn api_errors_are_reported() {
    let err = obj(vec![("code", n(404)), ("error", s("Not Found"))]);
    assert_eq!(check_api_error(&err), Some("Bangumi API 返回错误 (code=404): Not Found".to_string()));
    let err = obj(vec![("code", n(500))]);
    assert_eq!(check_api_error(&err), Some("Bangumi API 返回错误 (code=500): 未知错误".to_string()));
    assert_eq!(check_api_error(&obj(vec![("code", n(0))])), None);
    assert_eq!(check_api_error(&obj(vec![("list", JsonValue::Array(vec![]))])), None);
    match search_results(&obj(vec![("code", n(401)), ("error", s("x"))])) {
        Err(m) => assert_eq!(m, "Bangumi API 返回错误 (code=401): x"),
        Ok(_) => panic!("an API error is an error"),
    }
}

#[test]
fn search_results_keep_games_only() {
    let json = obj(vec![(
        "list",
        JsonValue::Array(vec![entry(1, 4, "A"), entry(2, 2, "anime"), entry(3, 4, "C")]),
    )]);
    let items = search_results(&json).unwrap_or_else(|_| panic!("no error"));
    assert_eq!(items.iter().map(|i| i.id).collect::<Vec<_>>(), vec![1, 3]);
    let none = search_results(&obj(vec![("results", n(0))])).unwrap_or_else(|_| panic!("no error"));
    assert!(none.is_empty());
}

#[test]
fn details_from_either_api() {
    assert!(detail_from_v0(&obj(vec![("id", n(1))])).is_none());
    assert!(detail_from_v0(&obj(vec![("code", n(404))])).is_none());
    let d = detail_from_v0(&obj(vec![("id", n(1)), ("summary", s("S"))])).unwrap();
    assert_eq!(d.summary, "S");
    match detail_from_legacy(&obj(vec![("id", n(9))]), 9) {
        Err(m) => assert_eq!(m, "API 返回数据异常：缺少 name/name_cn/summary 字段 (id=9)"),
        Ok(_) => panic!("an empty response is an error"),
    }
    let d = detail_from_legacy(&entry(9, 4, "N"), 9).unwrap_or_else(|_| panic!("no error"));
    assert_eq!(d.name, "N");
}

#[test]
fn detail_from_search_uses_first_match() {
    let items = vec![
        parse_subject_item(&entry(1, 4, "A")),
        parse_subject_item(&entry(2, 4, "B")),
        parse_subject_item(&entry(2, 4, "B2")),
    ];
    let d = detail_from_search(&items, 2).unwrap();
    assert_eq!(d.name, "B");
    assert!(d.tags.is_empty());
    assert_eq!(d.platform, "");
    assert!(detail_from_search(&items, 7).is_none());
}

#[test]
fn request_urls() {
    assert_eq!(
        search_url("白色 相簿"),
        "https://api.bgm.tv/search/subject/%E7%99%BD%E8%89%B2%20%E7%9B%B8%E7%B0%BF?type=4&responseGroup=large&max_results=25"
    );
    assert_eq!(search_url("Air"), "https://api.bgm.tv/search/subject/Air?type=4&responseGroup=large&max_results=25");
    assert_eq!(v0_detail_url(51), "https://api.bgm.tv/v0/subjects/51");
    assert_eq!(legacy_detail_url(51), "https://api.bgm.tv/subject/51?responseGroup=large");
}

#[test]
fn cover_urls() {
    assert_eq!(cover_download_url("http://lain.bgm.tv/x.jpg"), Ok("https://lain.bgm.tv/x.jpg".to_string()));
    assert_eq!(cover_download_url("https://a/b.jpg"), Ok("https://a/b.jpg".to_string()));
    assert_eq!(cover_download_url(""), Err("图片 URL 为空".to_string()));
    let d = parse_detail_item(&entry(1, 4, "A"));
    assert_eq!(cover_url(&d), "http://lain.bgm.tv/l.jpg");
    let d = parse_detail_item(&obj(vec![("images", obj(vec![("medium", s("M"))]))]));
    assert_eq!(cover_url(&d), "M");
}

#[test]
fn display_name_and_fill_data() {
    assert_eq!(display_name(&"中文".to_string(), &"JP".to_string()), "中文");
    assert_eq!(display_name(&String::new(), &"JP".to_string()), "JP");
    let mut tags = vec![tag("纯爱", 5)];
    tags.push(tag("少", 1));
    let d = parse_detail_item(&obj(vec![
        ("name", s("N")),
        ("name_cn", s("C")),
        ("summary", s("S")),
        ("date", s("2001-01-01")),
        ("tags", JsonValue::Array(tags)),
    ]));
    let fill = fill_data(d, "data:image/jpeg;base64,".to_string());
    assert_eq!(fill.name, "N");
    assert_eq!(fill.name_cn, "C");
    assert_eq!(fill.summary, "S");
    assert_eq!(fill.date, "2001-01-01");
    assert_eq!(fill.tags, vec!["纯爱"]);
    assert_eq!(fill.cover, "data:image/jpeg;base64,");
}

#[test]
fn request_failures_and_answers() {
    assert_eq!(request_failure_text(SendFailure::Timeout), "请求超时，请检查网络连接");
    assert_eq!(request_failure_text(SendFailure::Connect("x".to_string())), "无法连接到 Bangumi API，请检查网络");
    assert_eq!(request_failure_text(SendFailure::Other("boom".to_string())), "请求失败: boom");
    assert_eq!(read_failure_text("eof"), "读取响应失败: eof");
    assert_eq!(cover_failure_text(SendFailure::Timeout), "封面下载超时");
    assert_eq!(cover_failure_text(SendFailure::Connect("refused".to_string())), "封面下载失败: refused");
    let long: String = "字".repeat(250);
    assert_eq!(preview(&long).chars().count(), 200);
    assert_eq!(preview("short"), "short");
    match api_answer(404, "not here", Ok(JsonValue::Null)) {
        Err(m) => assert_eq!(m, "API 返回错误 (404): not here"),
        Ok(_) => panic!("404 is an error"),
    }
    match api_answer(200, "{", Err("EOF while parsing".to_string())) {
        Err(m) => assert_eq!(m, "JSON 解析失败: EOF while parsing (响应前200字符: {)"),
        Ok(_) => panic!("bad JSON is an error"),
    }
    assert!(matches!(api_answer(204, "", Ok(JsonValue::Bool(true))), Ok(JsonValue::Bool(true))));
    assert_eq!(cover_answer(404, "404 Not Found", Ok(vec![1])), Err("封面下载 HTTP 404 Not Found".to_string()));
    assert_eq!(cover_answer(200, "200 OK", Err("reset".to_string())), Err("读取封面数据失败: reset".to_string()));
    assert_eq!(cover_answer(200, "200 OK", Ok(vec![1, 2])), Ok(vec![1, 2]));
}
