//! The API: which handler a request reaches and what each handler decides
//! before the work that needs disk, database or images.

use vstd::prelude::*;
use crate::comm::{get_value, param_or, ReqResult};
use crate::parse::{body_decodes, body_decodes_ok, body_params, parse_body, Params};
use crate::text::{
    blank, chars_eq, chars_of, int_in_range, is_blank, replace_all, replace_chars, split_char,
    split_chars, string_of, views,
};

verus! {

broadcast use vstd::string::group_string_axioms;

/// The API methods.
#[derive(PartialEq, Eq, Structural, Clone, Copy, Debug)]
pub enum Route {
    Test,
    GetAll,
    Upload,
    Delete,
    DeleteAll,
    NotFound,
}

/// The method a URL names once every `api/` is taken out of it.
pub open spec fn route_of(url: Seq<char>) -> Route {
    let name = replace_all(url, "api/"@, Seq::<char>::empty());
    if name == "/test"@ {
        Route::Test
    } else if name == "/getAll"@ {
        Route::GetAll
    } else if name == "/upload"@ {
        Route::Upload
    } else if name == "/delete"@ {
        Route::Delete
    } else if name == "/deleteAll"@ {
        Route::DeleteAll
    } else {
        Route::NotFound
    }
}

fn is_name(name: &Vec<char>, s: &str) -> (b: bool)
    ensures
        b == (name@ == s@),
{
    let c = chars_of(s);
    chars_eq(name.as_slice(), c.as_slice())
}

/// The method that `url` names.
pub fn route(url: &str) -> (r: Route)
    ensures
        r == route_of(url@),
{
    let u = chars_of(url);
    let p = chars_of("api/");
    proof { reveal_strlit("api/"); }
    let empty: Vec<char> = Vec::new();
    let name = replace_chars(u.as_slice(), p.as_slice(), empty.as_slice());
    assert(empty@ =~= Seq::<char>::empty());
    if is_name(&name, "/test") {
        Route::Test
    } else if is_name(&name, "/getAll") {
        Route::GetAll
    } else if is_name(&name, "/upload") {
        Route::Upload
    } else if is_name(&name, "/delete") {
        Route::Delete
    } else if is_name(&name, "/deleteAll") {
        Route::DeleteAll
    } else {
        Route::NotFound
    }
}

/// An answer, as text.
pub struct ReplyView {
    pub success: bool,
    pub msg: Seq<char>,
    pub code: isize,
    pub data: Option<Seq<char>>,
}

pub open spec fn reply_view(r: ReqResult<Option<String>>) -> ReplyView {
    ReplyView {
        success: r.success,
        msg: r.msg@,
        code: r.code,
        data: match r.data {
            Some(d) => Some(d@),
            None => None,
        },
    }
}

/// What an upload asks for.
pub struct UploadPlan {
    /// Compression quality; outside `10..100` the picture is kept as sent.
    pub quality: i8,
    /// The picture is stored as sent rather than compressed to WebP.
    pub origin_upload: bool,
    /// The extension the stored file gets.
    pub file_type: String,
    pub name: String,
    /// The size the client reports.
    pub size: usize,
    pub appid: Option<String>,
    /// The picture, base64-encoded after a `data:...,` prefix.
    pub data: String,
}

pub struct UploadView {
    pub quality: i8,
    pub origin_upload: bool,
    pub file_type: Seq<char>,
    pub name: Seq<char>,
    pub size: usize,
    pub appid: Option<Seq<char>>,
    pub data: Seq<char>,
}

pub open spec fn upload_view(p: UploadPlan) -> UploadView {
    UploadView {
        quality: p.quality,
        origin_upload: p.origin_upload,
        file_type: p.file_type@,
        name: p.name@,
        size: p.size,
        appid: match p.appid {
            Some(a) => Some(a@),
            None => None,
        },
        data: p.data@,
    }
}

/// What the API decided for a request.
pub enum ApiAction {
    /// Answer at once.
    Reply(ReqResult<Option<String>>),
    /// List `limit` pictures from position `start`.
    ListPage { start: i64, limit: i64 },
    /// Delete the picture with this URL.
    DeleteOne { url: String },
    /// Delete each of these pictures.
    DeleteMany { urls: Vec<String> },
    /// Store an uploaded picture.
    Upload(UploadPlan),
}

pub enum ActionView {
    Reply(ReplyView),
    ListPage { start: i64, limit: i64 },
    DeleteOne { url: Seq<char> },
    DeleteMany { urls: Seq<Seq<char>> },
    Upload(UploadView),
}

impl View for ApiAction {
    type V = ActionView;

    open spec fn view(&self) -> ActionView {
        match self {
            ApiAction::Reply(r) => ActionView::Reply(reply_view(*r)),
            ApiAction::ListPage { start, limit } => ActionView::ListPage { start: *start, limit: *limit },
            ApiAction::DeleteOne { url } => ActionView::DeleteOne { url: url@ },
            ApiAction::DeleteMany { urls } => ActionView::DeleteMany {
                urls: urls@.map_values(|u: String| u@),
            },
            ApiAction::Upload(p) => ActionView::Upload(upload_view(*p)),
        }
    }
}

/// `/test` answers with a ping.
pub open spec fn test_action() -> ActionView {
    ActionView::Reply(ReplyView { success: true, msg: "ping success"@, code: 0, data: Some("ping"@) })
}

/// An unknown method is answered with an error that repeats the URL.
pub open spec fn not_found_action(url: Seq<char>) -> ActionView {
    ActionView::Reply(ReplyView { success: false, msg: "找不到方法"@, code: -1isize, data: Some(url) })
}

/// An `i64` parameter that must read as one, or `default` when missing.
pub open spec fn page_number(m: Map<Seq<char>, Seq<char>>, key: Seq<char>, default: int) -> int {
    if m.contains_key(key) {
        int_in_range(m[key], true, i64::MIN as int, i64::MAX as int)->0
    } else {
        default
    }
}

/// The page parameters `current` (default 1) and `limit` (default 0) read
/// as `i64` when given, and the first position `(current - 1) * limit` fits.
pub open spec fn page_ok(m: Map<Seq<char>, Seq<char>>) -> bool {
    &&& (m.contains_key("current"@) ==> int_in_range(m["current"@], true, i64::MIN as int, i64::MAX as int) is Some)
    &&& (m.contains_key("limit"@) ==> int_in_range(m["limit"@], true, i64::MIN as int, i64::MAX as int) is Some)
    &&& i64::MIN <= page_number(m, "current"@, 1) - 1
    &&& i64::MIN <= (page_number(m, "current"@, 1) - 1) * page_number(m, "limit"@, 0) <= i64::MAX
}

/// `/getAll`: the page `current` of `limit` pictures.
pub open spec fn get_all_action(m: Map<Seq<char>, Seq<char>>) -> ActionView {
    ActionView::ListPage {
        start: ((page_number(m, "current"@, 1) - 1) * page_number(m, "limit"@, 0)) as i64,
        limit: page_number(m, "limit"@, 0) as i64,
    }
}

/// `/delete`: the picture named by `url` (empty when missing).
pub open spec fn delete_action(m: Map<Seq<char>, Seq<char>>) -> ActionView {
    ActionView::DeleteOne { url: param_or::<String>(m, "url"@, Seq::<char>::empty()) }
}

/// The `url` parameter of `/deleteAll` with `[`, `]` and `"` taken out.
pub open spec fn clean_url_list(urls: Seq<char>) -> Seq<char> {
    replace_all(replace_all(replace_all(urls, "["@, Seq::<char>::empty()), "]"@, Seq::<char>::empty()),
        "\""@, Seq::<char>::empty())
}

/// `/deleteAll`: the comma-separated URLs of `url` (a JSON-like list is
/// accepted); a blank `url` is refused.
pub open spec fn delete_all_action(m: Map<Seq<char>, Seq<char>>) -> ActionView {
    let urls = param_or::<String>(m, "url"@, Seq::<char>::empty());
    if is_blank(urls) {
        ActionView::Reply(ReplyView { success: false, msg: "请指定正确的url"@, code: -1isize, data: Some(urls) })
    } else {
        ActionView::DeleteMany { urls: split_char(clean_url_list(urls), ',') }
    }
}

/// `/upload`: what is stored and how; a missing `data` is refused.
pub open spec fn upload_action(m: Map<Seq<char>, Seq<char>>) -> ActionView {
    if !m.contains_key("data"@) {
        ActionView::Reply(ReplyView { success: false, msg: "data 参数为空"@, code: -1isize, data: None })
    } else {
        let quality = param_or::<i8>(m, "quality"@, 40);
        let origin = quality >= 100 || quality < 10;
        ActionView::Upload(UploadView {
            quality: quality,
            origin_upload: origin,
            file_type: if origin {
                replace_all(param_or::<String>(m, "type"@, "png"@), "image/"@, Seq::<char>::empty())
            } else {
                "webp"@
            },
            name: if m.contains_key("name"@) { m["name"@] } else { Seq::<char>::empty() },
            size: param_or::<usize>(m, "size"@, 0),
            appid: if m.contains_key("appid"@) { Some(m["appid"@]) } else { None },
            data: m["data"@],
        })
    }
}

/// What the API decides for a request to `url` with parameters `m`.
pub open spec fn action_for(route: Route, url: Seq<char>, m: Map<Seq<char>, Seq<char>>) -> ActionView {
    match route {
        Route::Test => test_action(),
        Route::GetAll => get_all_action(m),
        Route::Upload => upload_action(m),
        Route::Delete => delete_action(m),
        Route::DeleteAll => delete_all_action(m),
        Route::NotFound => not_found_action(url),
    }
}

/// A request that the API can take without failing: its body decodes, and
/// a page request's numbers read and fit.
pub open spec fn api_call_ok(url: Seq<char>, body: Seq<char>) -> bool {
    &&& body_decodes(body)
    &&& (route_of(url) == Route::GetAll ==> page_ok(body_params(split_char(body, '&'))))
}

/// `/test`: a ping.
pub fn test(params: &Params) -> (r: ApiAction)
    ensures
        r@ == test_action(),
{
    ApiAction::Reply(ReqResult::success("ping success", Some(String::from_str("ping"))))
}

/// An `i64` page parameter, or `default` when it is missing; `None` when
/// it is given but does not read as an `i64`.
fn page_param(params: &Params, key: &str, default: i64) -> (r: Option<i64>)
    ensures
        match r {
            Some(v) => (params@.contains_key(key@) ==> int_in_range(params@[key@], true, i64::MIN as int,
                i64::MAX as int) == Some(v as int)) && (!params@.contains_key(key@) ==> v == default),
            None => params@.contains_key(key@) && int_in_range(params@[key@], true, i64::MIN as int,
                i64::MAX as int) is None,
        },
{
    match params.get(key) {
        Some(v) => crate::text::parse_i64(v.as_str()),
        None => Some(default),
    }
}

/// Whether the page parameters of `params` read and fit; `get_all` needs it.
pub fn page_params_ok(params: &Params) -> (b: bool)
    ensures
        b == page_ok(params@),
{
    let current = page_param(params, "current", 1);
    let limit = page_param(params, "limit", 0);
    match (current, limit) {
        (Some(c), Some(l)) => {
            assert(page_number(params@, "current"@, 1) == c as int);
            assert(page_number(params@, "limit"@, 0) == l as int);
            let c1: i128 = c as i128 - 1;
            if c1 < i64::MIN as i128 {
                return false;
            }
            assert(-0x8000_0000_0000_0000 <= c1 < 0x8000_0000_0000_0000);
            assert(-0x8000_0000_0000_0000 <= l < 0x8000_0000_0000_0000);
            assert(-0x4000_0000_0000_0000_0000_0000_0000_0000 <= c1 * l <= 0x4000_0000_0000_0000_0000_0000_0000_0000)
                by (nonlinear_arith)
                requires
                    -0x8000_0000_0000_0000 <= c1 < 0x8000_0000_0000_0000,
                    -0x8000_0000_0000_0000 <= l < 0x8000_0000_0000_0000;
            let p: i128 = c1 * (l as i128);
            i64::MIN as i128 <= p && p <= i64::MAX as i128
        },
        _ => false,
    }
}

/// `/getAll`: the first position `(current - 1) * limit` and the page size.
pub fn get_all(params: &Params) -> (r: ApiAction)
    requires
        page_ok(params@),
    ensures
        r@ == get_all_action(params@),
{
    let current = match page_param(params, "current", 1) {
        Some(c) => c,
        None => 1,
    };
    let limit = match page_param(params, "limit", 0) {
        Some(l) => l,
        None => 0,
    };
    assert(page_number(params@, "current"@, 1) == current as int);
    assert(page_number(params@, "limit"@, 0) == limit as int);
    let start = (current - 1) * limit;
    ApiAction::ListPage { start, limit }
}

/// `/delete`: the picture named by `url`.
pub fn delete(params: &Params) -> (r: ApiAction)
    ensures
        r@ == delete_action(params@),
{
    let url = get_value(params, "url", String::new());
    ApiAction::DeleteOne { url }
}

/// `/deleteAll`: the URLs to delete, from a comma-separated (or JSON-like)
/// list; a blank list is refused.
pub fn delete_all(params: &Params) -> (r: ApiAction)
    ensures
        r@ == delete_all_action(params@),
{
    let urls = get_value(params, "url", String::new());
    let u = chars_of(urls.as_str());
    if blank(u.as_slice()) {
        return ApiAction::Reply(ReqResult::error("请指定正确的url", Some(urls)));
    }
    let empty: Vec<char> = Vec::new();
    assert(empty@ =~= Seq::<char>::empty());
    let open = chars_of("[");
    let close = chars_of("]");
    let quote = chars_of("\"");
    proof {
        reveal_strlit("[");
        reveal_strlit("]");
        reveal_strlit("\"");
    }
    let a = replace_chars(u.as_slice(), open.as_slice(), empty.as_slice());
    let b = replace_chars(a.as_slice(), close.as_slice(), empty.as_slice());
    let c = replace_chars(b.as_slice(), quote.as_slice(), empty.as_slice());
    let pieces = split_chars(c.as_slice(), ',');
    let mut list: Vec<String> = Vec::new();
    let mut i: usize = 0;
    while i < pieces.len()
        invariant
            i <= pieces@.len(),
            list@.len() == i,
            forall|k: int| 0 <= k < i ==> #[trigger] list@[k]@ == pieces@[k]@,
        decreases pieces@.len() - i,
    {
        list.push(string_of(pieces[i].as_slice()));
        i = i + 1;
    }
    let r = ApiAction::DeleteMany { urls: list };
    assert(list@.map_values(|x: String| x@) =~= views(pieces@));
    r
}

/// `/upload`: what to store and how; a missing `data` is refused.
pub fn upload(params: &Params) -> (r: ApiAction)
    ensures
        r@ == upload_action(params@),
{
    let quality: i8 = get_value(params, "quality", 40i8);
    let appid = match params.get("appid") {
        Some(a) => Some(a.clone()),
        None => None,
    };
    let origin_upload = quality >= 100 || quality < 10;
    let file_type = if origin_upload {
        let t = get_value(params, "type", String::from_str("png"));
        let tc = chars_of(t.as_str());
        let p = chars_of("image/");
        proof { reveal_strlit("image/"); }
        let empty: Vec<char> = Vec::new();
        assert(empty@ =~= Seq::<char>::empty());
        let f = replace_chars(tc.as_slice(), p.as_slice(), empty.as_slice());
        string_of(f.as_slice())
    } else {
        String::from_str("webp")
    };
    let name = match params.get("name") {
        Some(n) => n.clone(),
        None => String::new(),
    };
    let size: usize = get_value(params, "size", 0usize);
    match params.get("data") {
        None => ApiAction::Reply(ReqResult::error("data 参数为空", None)),
        Some(d) => ApiAction::Upload(UploadPlan {
            quality,
            origin_upload,
            file_type,
            name,
            size,
            appid,
            data: d.clone(),
        }),
    }
}

/// Whether the API can take a request without failing; `get_api_data`
/// needs it.
pub fn api_call_accepted(url: &str, body: &str) -> (b: bool)
    ensures
        b == api_call_ok(url@, body@),
{
    if !body_decodes_ok(body) {
        return false;
    }
    if route(url) == Route::GetAll {
        let params = parse_body(body);
        page_params_ok(&params)
    } else {
        true
    }
}

/// Reads the body's parameters and decides what the method named by `url`
/// does with them.
pub fn get_api_data(url: &str, body: &str) -> (r: ApiAction)
    requires
        api_call_ok(url@, body@),
    ensures
        r@ == action_for(route_of(url@), url@, body_params(split_char(body@, '&'))),
{
    let params = parse_body(body);
    match route(url) {
        Route::Test => test(&params),
        Route::GetAll => get_all(&params),
        Route::Upload => upload(&params),
        Route::Delete => delete(&params),
        Route::DeleteAll => delete_all(&params),
        Route::NotFound => ApiAction::Reply(ReqResult::error("找不到方法", Some(String::from_str(url)))),
    }
}

/// The URLs whose deletion failed, in order.
pub open spec fn failed_urls(urls: Seq<Seq<char>>, deleted: Seq<bool>) -> Seq<Seq<char>>
    decreases urls.len(),
{
    if urls.len() == 0 {
        Seq::<Seq<char>>::empty()
    } else {
        let prev = failed_urls(urls.drop_last(), deleted.drop_last());
        if deleted.last() { prev } else { prev.push(urls.last()) }
    }
}

/// The answer to `/deleteAll` once each URL was tried (`deleted[i]` tells
/// whether `urls[i]` went): success with every URL when all went, failure
/// with the ones that did not otherwise.
pub fn delete_all_outcome(urls: Vec<String>, deleted: Vec<bool>) -> (r: ReqResult<Vec<String>>)
    requires
        urls@.len() == deleted@.len(),
    ensures
        (forall|i: int| 0 <= i < deleted@.len() ==> deleted@[i]) ==> r.success && r.code == 0
            && r.msg@ == "删除成功"@ && r.data@.map_values(|u: String| u@) == urls@.map_values(|u: String| u@),
        !(forall|i: int| 0 <= i < deleted@.len() ==> deleted@[i]) ==> !r.success && r.code == -1
            && r.msg@ == "删除失败"@ && r.data@.map_values(|u: String| u@) == failed_urls(
            urls@.map_values(|u: String| u@),
            deleted@,
        ),
{
    let ghost uv = urls@.map_values(|u: String| u@);
    let mut success = true;
    let mut ok: Vec<String> = Vec::new();
    let mut failed: Vec<String> = Vec::new();
    let mut i: usize = 0;
    while i < urls.len()
        invariant
            i <= urls@.len(),
            urls@.len() == deleted@.len(),
            uv == urls@.map_values(|u: String| u@),
            success == (forall|k: int| 0 <= k < i ==> deleted@[k]),
            success ==> ok@.map_values(|u: String| u@) == uv.take(i as int),
            failed@.map_values(|u: String| u@) == failed_urls(uv.take(i as int), deleted@.take(i as int)),
        decreases urls@.len() - i,
    {
        let ghost before_t = uv.take(i as int);
        assert(uv.take(i + 1).drop_last() =~= before_t);
        assert(deleted@.take(i + 1).drop_last() =~= deleted@.take(i as int));
        let u = urls[i].clone();
        if deleted[i] {
            ok.push(u);
        } else {
            success = false;
            failed.push(u);
        }
        i = i + 1;
        assert(failed@.map_values(|u: String| u@) =~= failed_urls(uv.take(i as int), deleted@.take(i as int)));
        assert(success ==> ok@.map_values(|u: String| u@) =~= uv.take(i as int));
    }
    assert(uv.take(i as int) =~= uv);
    assert(deleted@.take(i as int) =~= deleted@);
    if success {
        ReqResult::success("删除成功", ok)
    } else {
        ReqResult::error("删除失败", failed)
    }
}

} // verus!
