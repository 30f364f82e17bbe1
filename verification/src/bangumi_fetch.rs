use vstd::prelude::*;
use vstd::string::StringExecFns;
use crate::bangumi::{
    cover_url, detail_from_legacy, detail_from_search, detail_from_v0, fill_data, first_with_id,
    legacy_address, legacy_detail, legacy_detail_url, search_address, search_results, search_url,
    search_view, v0_address, v0_detail, v0_detail_url, BangumiGameDetail, DetailView, ItemView,
};
use crate::json::JsonValue;
use crate::codec::base64_encoded;
use crate::media::{bytes_to_data_uri, data_uri_text, detected_mime};
use crate::models::BangumiFillData;

verus! {

// ==================== Protocol ====================

/// Where filling a game from Bangumi stands. The details are asked of the current API,
/// then of the former one when the current one gives nothing; this is tried at most twice,
/// with a pause between. When both tries fail and a search keyword was given, the game is
/// looked for among the search results. The cover is then downloaded, at most twice too.
pub enum FetchPhase {
    /// Waiting for the current API's answer, in try number `attempt`.
    DetailV0 { attempt: u32 },
    /// Waiting for the former API's answer, in try number `attempt`.
    DetailLegacy { attempt: u32 },
    /// Pausing after try number `attempt` failed.
    DetailPause { attempt: u32 },
    /// Waiting for the search results, after the details failed with `last_err`.
    Search { last_err: String },
    /// Waiting for download number `attempt` of the cover at `url`.
    Cover { detail: BangumiGameDetail, url: String, attempt: u32 },
    /// Pausing after download number `attempt` of the cover failed.
    CoverPause { detail: BangumiGameDetail, url: String, attempt: u32 },
    /// Nothing left to do.
    Finished,
}

/// A fill in progress: the game looked for, the keyword to search for it by if its details
/// cannot be had, and the phase.
pub struct FetchState {
    pub subject_id: u32,
    pub keyword: Option<String>,
    pub phase: FetchPhase,
}

/// What came back from the work that the last action asked for.
pub enum FetchEvent {
    /// The JSON answer to a request, or why there is none.
    Answered(Result<JsonValue, String>),
    Slept,
    CoverDownloaded(Result<Vec<u8>, String>),
}

/// What to do next.
pub enum FetchAction {
    /// Send a request to this address and parse the answer as JSON.
    FetchJson(String),
    /// Pause for this many milliseconds.
    Sleep(u64),
    /// Download the cover at this address.
    DownloadCover(String),
    /// Give up with this message.
    Fail(String),
    /// Done: fill the form with this.
    Fill(BangumiFillData),
}

/// The pause between two tries, in milliseconds.
pub open spec fn retry_pause_ms() -> u64 {
    800
}

/// The tries stay within the two allowed, and a pause follows only a first try.
pub open spec fn fetch_wf(s: FetchState) -> bool {
    match s.phase {
        FetchPhase::DetailV0 { attempt } => attempt == 1 || attempt == 2,
        FetchPhase::DetailLegacy { attempt } => attempt == 1 || attempt == 2,
        FetchPhase::DetailPause { attempt } => attempt == 1,
        FetchPhase::Search { .. } => true,
        FetchPhase::Cover { attempt, .. } => attempt == 1 || attempt == 2,
        FetchPhase::CoverPause { attempt, .. } => attempt == 1,
        FetchPhase::Finished => true,
    }
}

/// The events that each phase waits for.
pub open spec fn accepts(p: FetchPhase, e: FetchEvent) -> bool {
    match p {
        FetchPhase::DetailV0 { .. } => e is Answered,
        FetchPhase::DetailLegacy { .. } => e is Answered,
        FetchPhase::DetailPause { .. } => e is Slept,
        FetchPhase::Search { .. } => e is Answered,
        FetchPhase::Cover { .. } => match e {
            FetchEvent::CoverDownloaded(Ok(bytes)) => bytes@.len() <= usize::MAX / 4 * 3,
            FetchEvent::CoverDownloaded(Err(_)) => true,
            _ => false,
        },
        FetchPhase::CoverPause { .. } => e is Slept,
        FetchPhase::Finished => false,
    }
}

/// The address a cover is taken from: the large image, else the medium one.
pub open spec fn cover_address(d: DetailView) -> Seq<char> {
    if d.item.image_large.len() > 0 {
        d.item.image_large
    } else {
        d.item.image
    }
}

/// The action fills the form from the details `d` and the cover `cover`.
pub open spec fn fills_with(a: FetchAction, d: DetailView, cover: Seq<char>) -> bool {
    a matches FetchAction::Fill(f) && f.name@ == d.item.name && f.name_cn@ == d.item.name_cn
        && f.summary@ == d.item.summary && f.cover@ == cover && f.tags.deep_view() == d.tags
        && f.date@ == d.item.date
}

/// The action gives up with this message.
pub open spec fn fails_with(s: FetchState, a: FetchAction, message: Seq<char>) -> bool {
    s.phase is Finished && (a matches FetchAction::Fail(m) && m@ == message)
}

/// The action asks for this address.
pub open spec fn requests(a: FetchAction, address: Seq<char>) -> bool {
    a matches FetchAction::FetchJson(u) && u@ == address
}

/// What follows once the details `d` are known: the cover is downloaded when there is an
/// address for it, else the form is filled without a cover.
pub open spec fn after_detail(s: FetchState, d: DetailView, a: FetchAction) -> bool {
    if cover_address(d).len() == 0 {
        s.phase is Finished && fills_with(a, d, Seq::empty())
    } else {
        &&& s.phase matches FetchPhase::Cover { detail, url, attempt } && detail@ == d && url@
            == cover_address(d) && attempt == 1
        &&& a matches FetchAction::DownloadCover(u) && u@ == cover_address(d)
    }
}

/// What follows when the current API gives nothing: the former API is asked, in the same try.
pub open spec fn to_legacy(s: FetchState, attempt: u32, subject_id: u32, a: FetchAction) -> bool {
    s.phase == FetchPhase::DetailLegacy { attempt } && requests(a, legacy_address(subject_id))
}

/// What a failed try leaves: another try after a pause if it was the first; else a search
/// when there is a keyword; else the failure, with its message.
pub open spec fn after_detail_failure(
    s: FetchState,
    attempt: u32,
    keyword: Option<String>,
    err: Seq<char>,
    a: FetchAction,
) -> bool {
    if attempt < 2 {
        s.phase == FetchPhase::DetailPause { attempt } && a == FetchAction::Sleep(retry_pause_ms())
    } else {
        match keyword {
            Some(kw) => (s.phase matches FetchPhase::Search { last_err } && last_err@ == err)
                && requests(a, search_address(kw@)),
            None => fails_with(s, a, err),
        }
    }
}

/// One step of the protocol: the phase and action that follow an event.
pub open spec fn fetch_step(cur: FetchState, e: FetchEvent, next: FetchState, a: FetchAction) -> bool {
    match cur.phase {
        FetchPhase::DetailV0 { attempt } => match e {
            FetchEvent::Answered(Ok(json)) => match v0_detail(json) {
                Some(d) => after_detail(next, d, a),
                None => to_legacy(next, attempt, cur.subject_id, a),
            },
            _ => to_legacy(next, attempt, cur.subject_id, a),
        },
        FetchPhase::DetailLegacy { attempt } => match e {
            FetchEvent::Answered(Ok(json)) => match legacy_detail(json, cur.subject_id) {
                Ok(d) => after_detail(next, d, a),
                Err(m) => after_detail_failure(next, attempt, cur.keyword, m, a),
            },
            FetchEvent::Answered(Err(m)) => after_detail_failure(next, attempt, cur.keyword, m@, a),
            _ => false,
        },
        FetchPhase::DetailPause { attempt } => next.phase == FetchPhase::DetailV0 {
            attempt: (attempt + 1) as u32,
        } && requests(a, v0_address(cur.subject_id)),
        FetchPhase::Search { last_err } => match e {
            FetchEvent::Answered(Ok(json)) => match search_view(json) {
                Ok(items) => match first_with_id(items, cur.subject_id) {
                    Some(item) => after_detail(
                        next,
                        DetailView { item, tags: Seq::empty(), platform: Seq::empty() },
                        a,
                    ),
                    None => fails_with(next, a, last_err@),
                },
                Err(_) => fails_with(next, a, last_err@),
            },
            _ => fails_with(next, a, last_err@),
        },
        FetchPhase::Cover { detail, url, attempt } => match e {
            FetchEvent::CoverDownloaded(Ok(bytes)) => next.phase is Finished && fills_with(
                a,
                detail@,
                data_uri_text(detected_mime(bytes@), base64_encoded(bytes@)),
            ),
            _ => if attempt < 2 {
                &&& next.phase matches FetchPhase::CoverPause { detail: d2, url: u2, attempt: n }
                    && d2@ == detail@ && u2@ == url@ && n == attempt
                &&& a == FetchAction::Sleep(retry_pause_ms())
            } else {
                next.phase is Finished && fills_with(a, detail@, Seq::empty())
            },
        },
        FetchPhase::CoverPause { detail, url, attempt } => {
            &&& next.phase matches FetchPhase::Cover { detail: d2, url: u2, attempt: n } && d2@
                == detail@ && u2@ == url@ && n == attempt + 1
            &&& a matches FetchAction::DownloadCover(u) && u@ == url@
        },
        FetchPhase::Finished => false,
    }
}

// ==================== Steps ====================

/// Begins filling the game `subject_id`: its details are asked of the current API first.
pub fn start_fetch(subject_id: u32, keyword: Option<String>) -> (r: (FetchState, FetchAction))
    ensures
        r.0.subject_id == subject_id,
        r.0.keyword == keyword,
        r.0.phase == (FetchPhase::DetailV0 { attempt: 1 }),
        requests(r.1, v0_address(subject_id)),
        fetch_wf(r.0),
{
    (
        FetchState { subject_id, keyword, phase: FetchPhase::DetailV0 { attempt: 1 } },
        FetchAction::FetchJson(v0_detail_url(subject_id)),
    )
}

/// The phase and action once the details are known.
fn with_detail(subject_id: u32, keyword: Option<String>, detail: BangumiGameDetail) -> (r: (
    FetchState,
    FetchAction,
))
    ensures
        r.0.subject_id == subject_id,
        r.0.keyword == keyword,
        after_detail(r.0, detail@, r.1),
        fetch_wf(r.0),
{
    let url = cover_url(&detail);
    if url.as_str().is_empty() {
        let fill = fill_data(detail, String::new());
        (FetchState { subject_id, keyword, phase: FetchPhase::Finished }, FetchAction::Fill(fill))
    } else {
        let action = FetchAction::DownloadCover(url.clone());
        (FetchState { subject_id, keyword, phase: FetchPhase::Cover { detail, url, attempt: 1 } }, action)
    }
}

fn finished_with_error(subject_id: u32, keyword: Option<String>, err: String) -> (r: (
    FetchState,
    FetchAction,
))
    ensures
        r.0.subject_id == subject_id,
        r.0.keyword == keyword,
        fails_with(r.0, r.1, err@),
{
    (FetchState { subject_id, keyword, phase: FetchPhase::Finished }, FetchAction::Fail(err))
}

/// The phase and action after a failed try.
fn after_failure(subject_id: u32, keyword: Option<String>, attempt: u32, err: String) -> (r: (
    FetchState,
    FetchAction,
))
    requires
        attempt == 1 || attempt == 2,
    ensures
        r.0.subject_id == subject_id,
        r.0.keyword == keyword,
        after_detail_failure(r.0, attempt, keyword, err@, r.1),
        fetch_wf(r.0),
{
    if attempt < 2 {
        (FetchState { subject_id, keyword, phase: FetchPhase::DetailPause { attempt } }, FetchAction::Sleep(800))
    } else {
        match keyword {
            Some(kw) => {
                let search = FetchAction::FetchJson(search_url(kw.as_str()));
                (FetchState { subject_id, keyword: Some(kw), phase: FetchPhase::Search { last_err: err } }, search)
            },
            None => finished_with_error(subject_id, None, err),
        }
    }
}

fn ask_legacy(subject_id: u32, keyword: Option<String>, attempt: u32) -> (r: (FetchState, FetchAction))
    requires
        attempt == 1 || attempt == 2,
    ensures
        r.0.subject_id == subject_id,
        r.0.keyword == keyword,
        to_legacy(r.0, attempt, subject_id, r.1),
        fetch_wf(r.0),
{
    (
        FetchState { subject_id, keyword, phase: FetchPhase::DetailLegacy { attempt } },
        FetchAction::FetchJson(legacy_detail_url(subject_id)),
    )
}

/// Takes the answer to the last action and says what to do next.
pub fn fetch_next(state: FetchState, event: FetchEvent) -> (r: (FetchState, FetchAction))
    requires
        fetch_wf(state),
        accepts(state.phase, event),
    ensures
        r.0.subject_id == state.subject_id,
        r.0.keyword == state.keyword,
        fetch_step(state, event, r.0, r.1),
        fetch_wf(r.0),
{
    let FetchState { subject_id, keyword, phase } = state;
    match phase {
        FetchPhase::DetailV0 { attempt } => match event {
            FetchEvent::Answered(Ok(json)) => match detail_from_v0(&json) {
                Some(d) => with_detail(subject_id, keyword, d),
                None => ask_legacy(subject_id, keyword, attempt),
            },
            _ => ask_legacy(subject_id, keyword, attempt),
        },
        FetchPhase::DetailLegacy { attempt } => match event {
            FetchEvent::Answered(Ok(json)) => match detail_from_legacy(&json, subject_id) {
                Ok(d) => with_detail(subject_id, keyword, d),
                Err(m) => after_failure(subject_id, keyword, attempt, m),
            },
            FetchEvent::Answered(Err(m)) => after_failure(subject_id, keyword, attempt, m),
            _ => {
                assert(false);
                finished_with_error(subject_id, keyword, String::new())
            },
        },
        FetchPhase::DetailPause { attempt } => (
            FetchState { subject_id, keyword, phase: FetchPhase::DetailV0 { attempt: attempt + 1 } },
            FetchAction::FetchJson(v0_detail_url(subject_id)),
        ),
        FetchPhase::Search { last_err } => match event {
            FetchEvent::Answered(Ok(json)) => match search_results(&json) {
                Ok(results) => match detail_from_search(&results, subject_id) {
                    Some(d) => with_detail(subject_id, keyword, d),
                    None => finished_with_error(subject_id, keyword, last_err),
                },
                Err(_) => finished_with_error(subject_id, keyword, last_err),
            },
            _ => finished_with_error(subject_id, keyword, last_err),
        },
        FetchPhase::Cover { detail, url, attempt } => match event {
            FetchEvent::CoverDownloaded(Ok(bytes)) => {
                let cover = bytes_to_data_uri(bytes.as_slice());
                let fill = fill_data(detail, cover);
                (FetchState { subject_id, keyword, phase: FetchPhase::Finished }, FetchAction::Fill(fill))
            },
            _ => {
                if attempt < 2 {
                    (
                        FetchState {
                            subject_id,
                            keyword,
                            phase: FetchPhase::CoverPause { detail, url, attempt },
                        },
                        FetchAction::Sleep(800),
                    )
                } else {
                    let fill = fill_data(detail, String::new());
                    (FetchState { subject_id, keyword, phase: FetchPhase::Finished }, FetchAction::Fill(fill))
                }
            },
        },
        FetchPhase::CoverPause { detail, url, attempt } => {
            let action = FetchAction::DownloadCover(url.clone());
            (
                FetchState {
                    subject_id,
                    keyword,
                    phase: FetchPhase::Cover { detail, url, attempt: attempt + 1 },
                },
                action,
            )
        },
        FetchPhase::Finished => {
            assert(false);
            finished_with_error(subject_id, keyword, String::new())
        },
    }
}

// ==================== Laws ====================

/// A fill tries for the details at most twice: a failure of the second try never leads to
/// a third one, but to a search (when there is a keyword) or to the failure itself.
pub proof fn law_detail_tried_at_most_twice(cur: FetchState, e: FetchEvent, next: FetchState, a: FetchAction)
    requires
        fetch_wf(cur),
        cur.phase == (FetchPhase::DetailLegacy { attempt: 2 }),
        match e {
            FetchEvent::Answered(Ok(json)) => legacy_detail(json, cur.subject_id) is Err,
            FetchEvent::Answered(Err(_)) => true,
            _ => false,
        },
        fetch_step(cur, e, next, a),
    ensures
        !(a is Sleep),
        !(next.phase is DetailV0),
        !(next.phase is DetailPause),
        a is FetchJson ==> next.phase is Search,
        a is FetchJson || a is Fail,
{
}

/// When the current API gives nothing, the former API is asked before the try counts as
/// failed.
pub proof fn law_legacy_after_empty_v0(cur: FetchState, e: FetchEvent, next: FetchState, a: FetchAction)
    requires
        cur.phase is DetailV0,
        match e {
            FetchEvent::Answered(Ok(json)) => v0_detail(json) is None,
            FetchEvent::Answered(Err(_)) => true,
            _ => false,
        },
        fetch_step(cur, e, next, a),
    ensures
        next.phase is DetailLegacy,
        requests(a, legacy_address(cur.subject_id)),
{
}

proof fn lemma_first_with_id_found(items: Seq<ItemView>, subject_id: u32)
    ensures
        first_with_id(items, subject_id) matches Some(it) ==> exists|j: int|
            0 <= j < items.len() && items[j] == it && it.id == subject_id,
        first_with_id(items, subject_id) is None ==> forall|j: int|
            0 <= j < items.len() ==> items[j].id != subject_id,
    decreases items.len(),
{
    if items.len() > 0 && items[0].id != subject_id {
        let t = items.drop_first();
        lemma_first_with_id_found(t, subject_id);
        if let Some(it) = first_with_id(items, subject_id) {
            let j = choose|j: int| 0 <= j < t.len() && t[j] == it && it.id == subject_id;
            assert(items[j + 1] == it);
        } else {
            assert forall|j: int| 0 <= j < items.len() implies items[j].id != subject_id by {
                if j > 0 {
                    assert(items[j] == t[j - 1]);
                }
            }
        }
    } else if items.len() > 0 {
        assert(items[0].id == subject_id);
    }
}

/// In the search fallback the form is filled only from a search entry whose id is the game
/// asked for; when the results hold no such entry (or the search failed) the fill gives up
/// with the last error of the details.
pub proof fn law_fallback_only_fills_the_requested_game(
    cur: FetchState,
    e: FetchEvent,
    next: FetchState,
    a: FetchAction,
)
    requires
        cur.phase is Search,
        e is Answered,
        fetch_step(cur, e, next, a),
    ensures
        match e {
            FetchEvent::Answered(Ok(json)) => match search_view(json) {
                Ok(items) => {
                    &&& (forall|j: int| 0 <= j < items.len() ==> items[j].id != cur.subject_id)
                        ==> fails_with(next, a, cur.phase->Search_last_err@)
                    &&& !(a is Fail) ==> exists|j: int|
                        0 <= j < items.len() && items[j].id == cur.subject_id && after_detail(
                            next,
                            DetailView { item: items[j], tags: Seq::empty(), platform: Seq::empty() },
                            a,
                        )
                },
                Err(_) => fails_with(next, a, cur.phase->Search_last_err@),
            },
            _ => fails_with(next, a, cur.phase->Search_last_err@),
        },
{
    if let FetchEvent::Answered(Ok(json)) = e {
        if let Ok(items) = search_view(json) {
            lemma_first_with_id_found(items, cur.subject_id);
            if (forall|j: int| 0 <= j < items.len() ==> items[j].id != cur.subject_id) {
                if let Some(it) = first_with_id(items, cur.subject_id) {
                    let j = choose|j: int| 0 <= j < items.len() && items[j] == it && it.id == cur.subject_id;
                    assert(items[j].id != cur.subject_id);
                }
            }
        }
    }
}

/// A cover that cannot be downloaded never makes the fill fail: after the second failed
/// download the form is filled without a cover.
pub proof fn law_cover_failure_is_not_fatal(cur: FetchState, e: FetchEvent, next: FetchState, a: FetchAction)
    requires
        fetch_wf(cur),
        cur.phase matches FetchPhase::Cover { attempt, .. } && attempt == 2,
        e matches FetchEvent::CoverDownloaded(Err(_)),
        fetch_step(cur, e, next, a),
    ensures
        a is Fill,
        next.phase is Finished,
{
}

/// How many steps a fill can still take from a phase, at most.
pub open spec fn steps_left(p: FetchPhase) -> nat {
    match p {
        FetchPhase::DetailV0 { attempt } => if attempt == 1 { 9 } else { 6 },
        FetchPhase::DetailLegacy { attempt } => if attempt == 1 { 8 } else { 5 },
        FetchPhase::DetailPause { .. } => 7,
        FetchPhase::Search { .. } => 4,
        FetchPhase::Cover { attempt, .. } => if attempt == 1 { 3 } else { 1 },
        FetchPhase::CoverPause { .. } => 2,
        FetchPhase::Finished => 0,
    }
}

/// Every fill comes to an end: each step brings it closer, so at most nine steps are taken;
/// and it ends exactly when it gives up or fills the form.
pub proof fn law_fill_ends(cur: FetchState, e: FetchEvent, next: FetchState, a: FetchAction)
    requires
        fetch_wf(cur),
        accepts(cur.phase, e),
        fetch_step(cur, e, next, a),
        fetch_wf(next),
    ensures
        steps_left(next.phase) < steps_left(cur.phase),
        steps_left(cur.phase) <= 9,
        next.phase is Finished <==> (a is Fail || a is Fill),
{
}

} // verus!
