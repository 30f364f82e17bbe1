use vstd::prelude::*;
use vstd::string::{StrSliceExecFns, StringExecFns, StringSliceAdditionalSpecFns};
use crate::codec::{decimal, decimal_text, percent_encoded, url_encode};
use vstd::utf8::encode_utf8;
use crate::json::{
    as_text, as_unsigned, f32_bits_of, get, get_f32_bits, get_img, get_str, get_u32, member,
    text_of, u32_of, JsonValue,
};
use crate::models::BangumiFillData;
use crate::seq_facts::{lemma_filter_push, lemma_take_push};
use crate::text::{has_prefix, starts_with};

verus! {

broadcast use vstd::string::group_string_axioms;

// ==================== Types ====================

/// A game found by a search on Bangumi. `score_bits` are the bits of the score as an `f32`.
pub struct BangumiSearchItem {
    pub id: u32,
    pub name: String,
    pub name_cn: String,
    pub summary: String,
    pub image: String,
    pub image_large: String,
    pub date: String,
    pub score_bits: u32,
    pub rank: u32,
}

/// The details of a game on Bangumi. `score_bits` are the bits of the score as an `f32`.
pub struct BangumiGameDetail {
    pub id: u32,
    pub name: String,
    pub name_cn: String,
    pub summary: String,
    pub image: String,
    pub image_large: String,
    pub date: String,
    pub score_bits: u32,
    pub rank: u32,
    pub tags: Vec<String>,
    pub platform: String,
}

/// A found game, as mathematical values.
pub struct ItemView {
    pub id: u32,
    pub name: Seq<char>,
    pub name_cn: Seq<char>,
    pub summary: Seq<char>,
    pub image: Seq<char>,
    pub image_large: Seq<char>,
    pub date: Seq<char>,
    pub score_bits: u32,
    pub rank: u32,
}

/// The details of a game, as mathematical values.
pub struct DetailView {
    pub item: ItemView,
    pub tags: Seq<Seq<char>>,
    pub platform: Seq<char>,
}

impl View for BangumiSearchItem {
    type V = ItemView;

    open spec fn view(&self) -> ItemView {
        ItemView {
            id: self.id,
            name: self.name@,
            name_cn: self.name_cn@,
            summary: self.summary@,
            image: self.image@,
            image_large: self.image_large@,
            date: self.date@,
            score_bits: self.score_bits,
            rank: self.rank,
        }
    }
}

impl DeepView for BangumiSearchItem {
    type V = ItemView;

    open spec fn deep_view(&self) -> ItemView {
        self@
    }
}

impl View for BangumiGameDetail {
    type V = DetailView;

    open spec fn view(&self) -> DetailView {
        DetailView {
            item: ItemView {
                id: self.id,
                name: self.name@,
                name_cn: self.name_cn@,
                summary: self.summary@,
                image: self.image@,
                image_large: self.image_large@,
                date: self.date@,
                score_bits: self.score_bits,
                rank: self.rank,
            },
            tags: self.tags.deep_view(),
            platform: self.platform@,
        }
    }
}

// ==================== Model ====================

/// The address of the Bangumi API.
pub open spec fn api_base() -> Seq<char> {
    "https://api.bgm.tv"@
}

/// The rating object of an entry, or null.
pub open spec fn rating_of(item: JsonValue) -> JsonValue {
    match member(item, "rating"@) {
        Some(r) => r,
        None => JsonValue::Null,
    }
}

/// The image URL of an entry at the given size.
pub open spec fn image_of(item: JsonValue, size: Seq<char>) -> Seq<char> {
    match member(item, "images"@) {
        Some(inner) => text_of(inner, size),
        None => Seq::empty(),
    }
}

/// An entry of a search or of the details read into a found game. The date is `air_date`
/// (former API) or else `date` (current API); the rank is the top-level `rank` when it is
/// positive, else the one under `rating`.
pub open spec fn subject_item(item: JsonValue) -> ItemView {
    let air = text_of(item, "air_date"@);
    let top_rank = u32_of(item, "rank"@);
    ItemView {
        id: u32_of(item, "id"@),
        name: text_of(item, "name"@),
        name_cn: text_of(item, "name_cn"@),
        summary: text_of(item, "summary"@),
        image: image_of(item, "medium"@),
        image_large: image_of(item, "large"@),
        date: if air.len() == 0 { text_of(item, "date"@) } else { air },
        score_bits: f32_bits_of(rating_of(item), "score"@),
        rank: if top_rank > 0 { top_rank } else { u32_of(rating_of(item), "rank"@) },
    }
}

/// The names of the tags used at least three times, in order.
pub open spec fn frequent_tags(tags: Seq<JsonValue>) -> Seq<Seq<char>>
    decreases tags.len(),
{
    if tags.len() == 0 {
        Seq::empty()
    } else {
        let t = tags.last();
        let count = match as_unsigned(member(t, "count"@)) {
            Some(c) => c,
            None => 0,
        };
        let rest = frequent_tags(tags.drop_last());
        match as_text(member(t, "name"@)) {
            Some(name) => if count >= 3 { rest.push(name) } else { rest },
            None => rest,
        }
    }
}

/// The tags of an entry: the first ten names of tags used at least three times.
pub open spec fn tags_of(item: JsonValue) -> Seq<Seq<char>> {
    match member(item, "tags"@) {
        Some(JsonValue::Array(arr)) => {
            let all = frequent_tags(arr@);
            if all.len() <= 10 { all } else { all.subrange(0, 10) }
        },
        _ => Seq::empty(),
    }
}

/// The details read from an entry.
pub open spec fn detail_item(item: JsonValue) -> DetailView {
    DetailView {
        item: subject_item(item),
        tags: tags_of(item),
        platform: text_of(item, "platform"@),
    }
}

/// The error message of an API response that carries a non-zero `code`.
pub open spec fn api_error(json: JsonValue) -> Option<Seq<char>> {
    match as_unsigned(member(json, "code"@)) {
        Some(code) => if code != 0 {
            let msg = match as_text(member(json, "error"@)) {
                Some(m) => m,
                None => "未知错误"@,
            };
            Some("Bangumi API 返回错误 (code="@ + decimal(code as nat) + "): "@ + msg)
        } else {
            None
        },
        None => None,
    }
}

/// The games of a search response: its entries of type 4 (games), in order.
pub open spec fn game_entries(list: Seq<JsonValue>) -> Seq<ItemView>
    decreases list.len(),
{
    if list.len() == 0 {
        Seq::empty()
    } else {
        let rest = game_entries(list.drop_last());
        if u32_of(list.last(), "type"@) == 4 {
            rest.push(subject_item(list.last()))
        } else {
            rest
        }
    }
}

/// The entry has a name, a Chinese name or a summary.
pub open spec fn has_content(json: JsonValue) -> bool {
    text_of(json, "name"@).len() > 0 || text_of(json, "name_cn"@).len() > 0 || text_of(
        json,
        "summary"@,
    ).len() > 0
}

pub open spec fn items_view(v: Seq<BangumiSearchItem>) -> Seq<ItemView> {
    Seq::new(v.len(), |i: int| v[i]@)
}

/// The search request for a keyword.
pub open spec fn search_address(keyword: Seq<char>) -> Seq<char> {
    api_base() + "/search/subject/"@ + percent_encoded(encode_utf8(keyword))
        + "?type=4&responseGroup=large&max_results=25"@
}

/// The details request of the current API.
pub open spec fn v0_address(subject_id: u32) -> Seq<char> {
    api_base() + "/v0/subjects/"@ + decimal(subject_id as nat)
}

/// The details request of the former API.
pub open spec fn legacy_address(subject_id: u32) -> Seq<char> {
    api_base() + "/subject/"@ + decimal(subject_id as nat) + "?responseGroup=large"@
}

/// The details that an answer of the current API gives: none for an error or an entry
/// without name, Chinese name and summary.
pub open spec fn v0_detail(json: JsonValue) -> Option<DetailView> {
    if api_error(json) is None && has_content(json) {
        Some(detail_item(json))
    } else {
        None
    }
}

/// The details that an answer of the former API gives, or the message of the failure.
pub open spec fn legacy_detail(json: JsonValue, subject_id: u32) -> Result<DetailView, Seq<char>> {
    match api_error(json) {
        Some(m) => Err(m),
        None => if has_content(json) {
            Ok(detail_item(json))
        } else {
            Err(
                "API 返回数据异常：缺少 name/name_cn/summary 字段 (id="@ + decimal(subject_id as nat)
                    + ")"@,
            )
        },
    }
}

/// The games that a search answer gives, or the message of its error.
pub open spec fn search_view(json: JsonValue) -> Result<Seq<ItemView>, Seq<char>> {
    match api_error(json) {
        Some(m) => Err(m),
        None => Ok(
            match member(json, "list"@) {
                Some(JsonValue::Array(arr)) => game_entries(arr@),
                _ => Seq::<ItemView>::empty(),
            },
        ),
    }
}

/// The first found game with the given id.
pub open spec fn first_with_id(items: Seq<ItemView>, subject_id: u32) -> Option<ItemView>
    decreases items.len(),
{
    if items.len() == 0 {
        None
    } else if items[0].id == subject_id {
        Some(items[0])
    } else {
        first_with_id(items.drop_first(), subject_id)
    }
}

// ==================== Parsing ====================

/// Reads an entry of a search or of the details into a found game.
pub fn parse_subject_item(item: &JsonValue) -> (r: BangumiSearchItem)
    ensures
        r@ == subject_item(*item),
{
    let null = JsonValue::Null;
    let rating = match get(item, "rating") {
        Some(r) => r,
        None => &null,
    };
    let air = get_str(item, "air_date");
    let date = if air.as_str().is_empty() {
        get_str(item, "date")
    } else {
        air
    };
    let top_rank = get_u32(item, "rank");
    let rank = if top_rank > 0 {
        top_rank
    } else {
        get_u32(rating, "rank")
    };
    BangumiSearchItem {
        id: get_u32(item, "id"),
        name: get_str(item, "name"),
        name_cn: get_str(item, "name_cn"),
        summary: get_str(item, "summary"),
        image: get_img(item, "images", "medium"),
        image_large: get_img(item, "images", "large"),
        date,
        score_bits: get_f32_bits(rating, "score"),
        rank,
    }
}

/// The names of the tags used at least three times.
fn frequent_tag_names(tags: &Vec<JsonValue>) -> (names: Vec<String>)
    ensures
        names.deep_view() == frequent_tags(tags@),
{
    let mut names: Vec<String> = Vec::new();
    let mut i: usize = 0;
    while i < tags.len()
        invariant
            i <= tags.len(),
            names.deep_view() == frequent_tags(tags@.take(i as int)),
        decreases tags.len() - i,
    {
        proof {
            lemma_take_push(tags@, i as int);
            assert(tags@.take(i + 1).drop_last() =~= tags@.take(i as int));
        }
        let t = &tags[i];
        let count: u64 = match get(t, "count") {
            Some(JsonValue::Number(n)) => match n.as_u64 {
                Some(c) => c,
                None => 0,
            },
            _ => 0,
        };
        if count >= 3 {
            match get(t, "name") {
                Some(JsonValue::Str(s)) => {
                    let ghost before = names.deep_view();
                    names.push(s.clone());
                    assert(names.deep_view() =~= before.push(s@));
                },
                _ => {},
            }
        }
        i = i + 1;
    }
    assert(tags@.take(tags@.len() as int) =~= tags@);
    names
}

/// Reads the details of a game from an entry.
pub fn parse_detail_item(item: &JsonValue) -> (d: BangumiGameDetail)
    ensures
        d@ == detail_item(*item),
{
    let base = parse_subject_item(item);
    let tags = match get(item, "tags") {
        Some(JsonValue::Array(arr)) => {
            let mut names = frequent_tag_names(arr);
            let ghost all = names.deep_view();
            names.truncate(10);
            assert(names.deep_view() =~= if all.len() <= 10 {
                all
            } else {
                all.subrange(0, 10)
            });
            names
        },
        _ => {
            let v: Vec<String> = Vec::new();
            assert(v.deep_view() =~= Seq::<Seq<char>>::empty());
            v
        },
    };
    BangumiGameDetail {
        id: base.id,
        name: base.name,
        name_cn: base.name_cn,
        summary: base.summary,
        image: base.image,
        image_large: base.image_large,
        date: base.date,
        score_bits: base.score_bits,
        rank: base.rank,
        tags,
        platform: get_str(item, "platform"),
    }
}

/// The error message of an API response that carries a non-zero `code`.
pub fn check_api_error(json: &JsonValue) -> (err: Option<String>)
    ensures
        match err {
            Some(m) => api_error(*json) == Some(m@),
            None => api_error(*json) is None,
        },
{
    match get(json, "code") {
        Some(JsonValue::Number(n)) => match n.as_u64 {
            Some(code) => {
                if code != 0 {
                    let msg = match get(json, "error") {
                        Some(JsonValue::Str(s)) => s.clone(),
                        _ => String::from_str("未知错误"),
                    };
                    let mut text = String::from_str("Bangumi API 返回错误 (code=");
                    let digits = decimal_text(code);
                    text.append(digits.as_str());
                    text.append("): ");
                    text.append(msg.as_str());
                    Some(text)
                } else {
                    None
                }
            },
            None => None,
        },
        _ => None,
    }
}

/// The games of a search response: an API error gives its message; a response whose
/// `list` is not an array gives no game; else the entries of type 4, in order.
pub fn search_results(json: &JsonValue) -> (res: Result<Vec<BangumiSearchItem>, String>)
    ensures
        match api_error(*json) {
            Some(m) => res matches Err(e) && e@ == m,
            None => res matches Ok(items) && items_view(items@) == match member(*json, "list"@) {
                Some(JsonValue::Array(arr)) => game_entries(arr@),
                _ => Seq::<ItemView>::empty(),
            },
        },
{
    match check_api_error(json) {
        Some(e) => return Err(e),
        None => {},
    }
    let mut items: Vec<BangumiSearchItem> = Vec::new();
    match get(json, "list") {
        Some(JsonValue::Array(arr)) => {
            let mut i: usize = 0;
            while i < arr.len()
                invariant
                    i <= arr.len(),
                    items_view(items@) == game_entries(arr@.take(i as int)),
                decreases arr.len() - i,
            {
                proof {
                    assert(arr@.take(i + 1).drop_last() =~= arr@.take(i as int));
                    assert(arr@.take(i + 1).last() == arr@[i as int]);
                }
                if get_u32(&arr[i], "type") == 4 {
                    let it = parse_subject_item(&arr[i]);
                    let ghost before = items@;
                    items.push(it);
                    assert(items_view(items@) =~= items_view(before).push(it@));
                }
                i = i + 1;
            }
            assert(arr@.take(arr@.len() as int) =~= arr@);
        },
        _ => {
            assert(items_view(items@) =~= Seq::<ItemView>::empty());
        },
    }
    Ok(items)
}

/// The details given by the current API, when its response is no error and has content.
pub fn detail_from_v0(json: &JsonValue) -> (d: Option<BangumiGameDetail>)
    ensures
        match d {
            Some(detail) => api_error(*json) is None && has_content(*json) && detail@
                == detail_item(*json),
            None => api_error(*json) is Some || !has_content(*json),
        },
{
    if check_api_error(json).is_some() {
        return None;
    }
    let name = get_str(json, "name");
    let name_cn = get_str(json, "name_cn");
    let summary = get_str(json, "summary");
    if !name.as_str().is_empty() || !name_cn.as_str().is_empty() || !summary.as_str().is_empty() {
        Some(parse_detail_item(json))
    } else {
        None
    }
}

/// The details given by the former API: an API error gives its message, a response without
/// name, Chinese name and summary an error naming the id, else the details.
pub fn detail_from_legacy(json: &JsonValue, subject_id: u32) -> (res: Result<BangumiGameDetail, String>)
    ensures
        match api_error(*json) {
            Some(m) => res matches Err(e) && e@ == m,
            None => if has_content(*json) {
                res matches Ok(d) && d@ == detail_item(*json)
            } else {
                res matches Err(e) && e@ == "API 返回数据异常：缺少 name/name_cn/summary 字段 (id="@
                    + decimal(subject_id as nat) + ")"@
            },
        },
{
    match check_api_error(json) {
        Some(e) => return Err(e),
        None => {},
    }
    let name = get_str(json, "name");
    let name_cn = get_str(json, "name_cn");
    let summary = get_str(json, "summary");
    if name.as_str().is_empty() && name_cn.as_str().is_empty() && summary.as_str().is_empty() {
        let mut text = String::from_str("API 返回数据异常：缺少 name/name_cn/summary 字段 (id=");
        let digits = decimal_text(subject_id as u64);
        text.append(digits.as_str());
        text.append(")");
        return Err(text);
    }
    Ok(parse_detail_item(json))
}

// ==================== Requests ====================

/// The search request: `<api>/search/subject/<keyword, percent-encoded>?type=4&responseGroup=large&max_results=25`.
pub fn search_url(keyword: &str) -> (url: String)
    ensures
        url@ == search_address(keyword@),
{
    let mut url = String::from_str("https://api.bgm.tv");
    url.append("/search/subject/");
    let enc = url_encode(keyword);
    url.append(enc.as_str());
    url.append("?type=4&responseGroup=large&max_results=25");
    url
}

/// The details request of the current API: `<api>/v0/subjects/<id>`.
pub fn v0_detail_url(subject_id: u32) -> (url: String)
    ensures
        url@ == v0_address(subject_id),
{
    let mut url = String::from_str("https://api.bgm.tv");
    url.append("/v0/subjects/");
    let digits = decimal_text(subject_id as u64);
    url.append(digits.as_str());
    url
}

/// The details request of the former API: `<api>/subject/<id>?responseGroup=large`.
pub fn legacy_detail_url(subject_id: u32) -> (url: String)
    ensures
        url@ == legacy_address(subject_id),
{
    let mut url = String::from_str("https://api.bgm.tv");
    url.append("/subject/");
    let digits = decimal_text(subject_id as u64);
    url.append(digits.as_str());
    url.append("?responseGroup=large");
    url
}

/// The address a cover is downloaded from: an empty address is refused, `http://` becomes
/// `https://`.
pub fn cover_download_url(image_url: &str) -> (res: Result<String, String>)
    ensures
        image_url@.len() == 0 ==> (res matches Err(e) && e@ == "图片 URL 为空"@),
        image_url@.len() > 0 && has_prefix(image_url@, "http://"@) ==> (res matches Ok(u) && u@
            == "https://"@ + image_url@.subrange(7, image_url@.len() as int)),
        image_url@.len() > 0 && !has_prefix(image_url@, "http://"@) ==> (res matches Ok(u) && u@
            == image_url@),
{
    if image_url.is_empty() {
        return Err(String::from_str("图片 URL 为空"));
    }
    if starts_with(image_url, "http://") {
        proof {
            reveal_strlit("http://");
        }
        let n = image_url.unicode_len();
        let rest = image_url.substring_char(7, n);
        let mut url = String::from_str("https://");
        url.append(rest);
        Ok(url)
    } else {
        Ok(String::from_str(image_url))
    }
}

// ==================== Answers and failures of requests ====================

/// Why a request could not be sent.
pub enum SendFailure {
    /// It took too long.
    Timeout,
    /// No connection could be made; the text describes the failure.
    Connect(String),
    /// Something else went wrong; the text describes the failure.
    Other(String),
}

/// The first 200 characters of a text (all of it when it is shorter).
pub open spec fn preview_of(text: Seq<char>) -> Seq<char> {
    if text.len() <= 200 {
        text
    } else {
        text.take(200)
    }
}

/// The first 200 characters of a text, as shown in messages and traces.
pub fn preview(text: &str) -> (p: String)
    ensures
        p@ == preview_of(text@),
{
    let n = text.unicode_len();
    let end: usize = if n <= 200 { n } else { 200 };
    let p = String::from_str(text.substring_char(0, end));
    assert(text@.subrange(0, n as int) =~= text@);
    p
}

/// The message for an API request that could not be sent.
pub fn request_failure_text(failure: SendFailure) -> (m: String)
    ensures
        m@ == match failure {
            SendFailure::Timeout => "请求超时，请检查网络连接"@,
            SendFailure::Connect(_) => "无法连接到 Bangumi API，请检查网络"@,
            SendFailure::Other(e) => "请求失败: "@ + e@,
        },
{
    match failure {
        SendFailure::Timeout => String::from_str("请求超时，请检查网络连接"),
        SendFailure::Connect(_) => String::from_str("无法连接到 Bangumi API，请检查网络"),
        SendFailure::Other(e) => {
            let mut m = String::from_str("请求失败: ");
            m.append(e.as_str());
            m
        },
    }
}

/// The message for an answer whose body could not be read.
pub fn read_failure_text(cause: &str) -> (m: String)
    ensures
        m@ == "读取响应失败: "@ + cause@,
{
    let mut m = String::from_str("读取响应失败: ");
    m.append(cause);
    m
}

/// A success status: from 200 to 299.
pub open spec fn is_success_status(status: u16) -> bool {
    200 <= status < 300
}

/// What an answer of the API gives: an error for a status other than success, naming the
/// status and the beginning of the body; else the parsed JSON (`parsed`, what parsing the
/// body gave), or an error naming why it could not be parsed.
pub fn api_answer(status: u16, body: &str, parsed: Result<JsonValue, String>) -> (r: Result<
    JsonValue,
    String,
>)
    ensures
        !is_success_status(status) ==> (r matches Err(m) && m@ == "API 返回错误 ("@ + decimal(
            status as nat,
        ) + "): "@ + preview_of(body@)),
        is_success_status(status) ==> match parsed {
            Ok(v) => r == Ok::<JsonValue, String>(v),
            Err(e) => r matches Err(m) && m@ == "JSON 解析失败: "@ + e@ + " (响应前200字符: "@
                + preview_of(body@) + ")"@,
        },
{
    if !(200 <= status && status < 300) {
        let mut m = String::from_str("API 返回错误 (");
        m.append(decimal_text(status as u64).as_str());
        m.append("): ");
        m.append(preview(body).as_str());
        return Err(m);
    }
    match parsed {
        Ok(v) => Ok(v),
        Err(e) => {
            let mut m = String::from_str("JSON 解析失败: ");
            m.append(e.as_str());
            m.append(" (响应前200字符: ");
            m.append(preview(body).as_str());
            m.append(")");
            Err(m)
        },
    }
}

/// The message for a cover download that could not be sent.
pub fn cover_failure_text(failure: SendFailure) -> (m: String)
    ensures
        m@ == match failure {
            SendFailure::Timeout => "封面下载超时"@,
            SendFailure::Connect(e) => "封面下载失败: "@ + e@,
            SendFailure::Other(e) => "封面下载失败: "@ + e@,
        },
{
    match failure {
        SendFailure::Timeout => String::from_str("封面下载超时"),
        SendFailure::Connect(e) => {
            let mut m = String::from_str("封面下载失败: ");
            m.append(e.as_str());
            m
        },
        SendFailure::Other(e) => {
            let mut m = String::from_str("封面下载失败: ");
            m.append(e.as_str());
            m
        },
    }
}

/// What a cover download gives: an error naming the status (`status_text`, as the status is
/// written) for a status other than success; else the downloaded bytes, or an error naming
/// why they could not be read.
pub fn cover_answer(status: u16, status_text: &str, bytes: Result<Vec<u8>, String>) -> (r: Result<
    Vec<u8>,
    String,
>)
    ensures
        !is_success_status(status) ==> (r matches Err(m) && m@ == "封面下载 HTTP "@ + status_text@),
        is_success_status(status) ==> match bytes {
            Ok(b) => r matches Ok(x) && x@ == b@,
            Err(e) => r matches Err(m) && m@ == "读取封面数据失败: "@ + e@,
        },
{
    if !(200 <= status && status < 300) {
        let mut m = String::from_str("封面下载 HTTP ");
        m.append(status_text);
        return Err(m);
    }
    match bytes {
        Ok(b) => Ok(b),
        Err(e) => {
            let mut m = String::from_str("读取封面数据失败: ");
            m.append(e.as_str());
            Err(m)
        },
    }
}

// ==================== Filling a game from Bangumi ====================

/// The details built from the first search entry with the id (without tags and platform),
/// used when the details API fails.
pub fn detail_from_search(results: &Vec<BangumiSearchItem>, subject_id: u32) -> (d: Option<
    BangumiGameDetail,
>)
    ensures
        match d {
            Some(detail) => first_with_id(items_view(results@), subject_id) == Some(detail@.item)
                && detail@.tags == Seq::<Seq<char>>::empty() && detail@.platform == Seq::<char>::empty(),
            None => first_with_id(items_view(results@), subject_id) is None,
        },
{
    let ghost all = items_view(results@);
    let mut i: usize = 0;
    assert(all.skip(0) =~= all);
    while i < results.len()
        invariant
            i <= results.len(),
            all == items_view(results@),
            first_with_id(all, subject_id) == first_with_id(all.skip(i as int), subject_id),
        decreases results.len() - i,
    {
        let it = &results[i];
        assert(all.skip(i as int)[0] == it@);
        assert(all.skip(i as int).drop_first() =~= all.skip(i + 1));
        if it.id == subject_id {
            let d = BangumiGameDetail {
                id: it.id,
                name: it.name.clone(),
                name_cn: it.name_cn.clone(),
                summary: it.summary.clone(),
                image: it.image.clone(),
                image_large: it.image_large.clone(),
                date: it.date.clone(),
                score_bits: it.score_bits,
                rank: it.rank,
                tags: Vec::new(),
                platform: String::new(),
            };
            assert(d.tags.deep_view() =~= Seq::<Seq<char>>::empty());
            assert(d@.item == it@);
            return Some(d);
        }
        i = i + 1;
    }
    None
}

/// The cover address of a game: the large image, else the medium one.
pub fn cover_url(detail: &BangumiGameDetail) -> (url: String)
    ensures
        url@ == if detail.image_large@.len() > 0 { detail.image_large@ } else { detail.image@ },
{
    if !detail.image_large.as_str().is_empty() {
        detail.image_large.clone()
    } else {
        detail.image.clone()
    }
}

/// The name a game is shown under in the log: the Chinese name, else the name.
pub fn display_name(name_cn: &String, name: &String) -> (s: String)
    ensures
        s@ == if name_cn@.len() > 0 { name_cn@ } else { name@ },
{
    if !name_cn.as_str().is_empty() {
        name_cn.clone()
    } else {
        name.clone()
    }
}

/// The fields filled into the form of a game from its details and downloaded cover.
pub fn fill_data(detail: BangumiGameDetail, cover: String) -> (f: BangumiFillData)
    ensures
        f.name@ == detail.name@,
        f.name_cn@ == detail.name_cn@,
        f.summary@ == detail.summary@,
        f.cover@ == cover@,
        f.tags.deep_view() == detail.tags.deep_view(),
        f.date@ == detail.date@,
{
    BangumiFillData {
        name: detail.name,
        name_cn: detail.name_cn,
        summary: detail.summary,
        cover,
        tags: detail.tags,
        date: detail.date,
    }
}

// ==================== Laws ====================

/// The details read from an entry hold the fields of the found game read from it, and at
/// most ten tags.
pub proof fn law_detail_extends_item(item: JsonValue)
    ensures
        detail_item(item).item == subject_item(item),
        detail_item(item).tags.len() <= 10,
{
}

/// The entries of a search answer that are games (of type 4).
pub open spec fn is_game_entry() -> spec_fn(JsonValue) -> bool {
    |e: JsonValue| u32_of(e, "type"@) == 4
}

/// The search results are exactly the entries of the list that are games, every one of
/// them, each read as a found game, in the order of the list.
pub proof fn law_search_keeps_every_game(list: Seq<JsonValue>)
    ensures
        game_entries(list) == list.filter(is_game_entry()).map_values(|e: JsonValue| subject_item(e)),
    decreases list.len(),
{
    if list.len() > 0 {
        let t = list.drop_last();
        law_search_keeps_every_game(t);
        assert(list == t.push(list.last()));
        lemma_filter_push(t, list.last(), is_game_entry());
        let f = |e: JsonValue| subject_item(e);
        if u32_of(list.last(), "type"@) == 4 {
            assert(t.filter(is_game_entry()).push(list.last()).map_values(f) =~= t.filter(
                is_game_entry(),
            ).map_values(f).push(subject_item(list.last())));
        }
    } else {
        assert(list.filter(is_game_entry()) =~= Seq::<JsonValue>::empty()) by {
            reveal(Seq::filter);
        }
        assert(list.filter(is_game_entry()).map_values(|e: JsonValue| subject_item(e)) =~= Seq::<
            ItemView,
        >::empty());
    }
}

/// A search result holds only games: as many as there are entries of type 4, never more
/// than the entries of the list.
pub proof fn law_search_keeps_games_only(list: Seq<JsonValue>)
    ensures
        game_entries(list).len() <= list.len(),
    decreases list.len(),
{
    if list.len() > 0 {
        law_search_keeps_games_only(list.drop_last());
    }
}

} // verus!
