//! Pictures and their index: the record kept for each picture, the SQL the
//! index is queried with, and how database results are reported.

use vstd::prelude::*;
use crate::comm::ReqResult;
use crate::matcher::{count_text, select_text, Matcher, MatcherView};
use crate::text::{contains_chars, contains_text, chars_of, nat_string, nat_text, push_char, split_char, split_chars};

verus! {

broadcast use vstd::string::group_string_axioms;

/// One page of pictures and the number of pictures that match.
pub struct PageData {
    pub list: Vec<Data>,
    pub total: i64,
}

/// The index record of a stored picture.
pub struct Data {
    pub name: String,
    pub url: String,
    pub thumb: String,
    pub time: i64,
    pub size: i64,
    pub width: i64,
    pub height: i64,
}

/// `?1,?2,...,?n`.
pub open spec fn placeholders(n: nat) -> Seq<char>
    decreases n,
{
    if n == 0 {
        Seq::<char>::empty()
    } else if n == 1 {
        seq!['?'] + nat_text(1)
    } else {
        placeholders((n - 1) as nat) + seq![',', '?'] + nat_text(n)
    }
}

/// One numbered placeholder for each comma-separated field:
/// `"a,b,c"` gives `"?1,?2,?3"`.
pub fn turn_values(fields: String) -> (values: String)
    ensures
        values@ == placeholders(split_char(fields@, ',').len()),
{
    let chars = chars_of(fields.as_str());
    let parts = split_chars(chars.as_slice(), ',');
    let n = parts.len();
    assert(n as nat == split_char(fields@, ',').len());
    let mut values = String::new();
    let mut num: usize = 1;
    while num <= n
        invariant
            1 <= num <= n + 1,
            n <= usize::MAX,
            n as nat == split_char(fields@, ',').len(),
            values@ == placeholders((num - 1) as nat),
        decreases n + 1 - num,
    {
        if num > 1 {
            push_char(&mut values, ',');
        }
        push_char(&mut values, '?');
        let t = nat_string(num as u128);
        values.append(t.as_str());
        assert(values@ =~= placeholders(num as nat));
        if num == n {
            return values;
        }
        num = num + 1;
    }
    values
}

/// The outcome of a database statement: success, message, code and the
/// number of rows changed.
pub fn fmt_result(result: Result<usize, String>) -> (r: (bool, String, isize, usize))
    ensures
        match result {
            Ok(n) => r.0 && r.1@ == "成功"@ && r.2 == 0 && r.3 == n,
            Err(e) => !r.0 && r.1@ == e@ && r.2 == -1 && r.3 == 0,
        },
{
    match result {
        Ok(size) => (true, String::from_str("成功"), 0, size),
        Err(e) => (false, e, -1, 0),
    }
}

/// The answer for an operation's result: its value on success, its error
/// message on failure.
pub fn proc_result<T>(result: Result<T, String>) -> (r: ReqResult<Option<T>>)
    ensures
        match result {
            Ok(data) => r.success && r.code == 0 && r.msg@ == "success"@ && r.data == Some(data),
            Err(e) => !r.success && r.code == -1 && r.msg@ == e@ && r.data is None,
        },
{
    match result {
        Ok(data) => ReqResult::success("success", Some(data)),
        Err(e) => ReqResult::error(e.as_str(), None),
    }
}

/// The columns of a picture record, in table order.
pub const PICTURE_FIELDS: &'static str = "name,url,thumb,time,size,width,height";

/// `INSERT INTO picture (<fields>) VALUES (?1,...,?7)`.
pub open spec fn insert_text() -> Seq<char> {
    "INSERT INTO picture ("@ + PICTURE_FIELDS@ + ") VALUES ("@
        + placeholders(split_char(PICTURE_FIELDS@, ',').len()) + ")"@
}

/// The statement that adds a picture record.
pub fn insert_sql() -> (s: String)
    ensures
        s@ == insert_text(),
{
    let values = turn_values(String::from_str(PICTURE_FIELDS));
    let mut s = String::from_str("INSERT INTO picture (");
    s.append(PICTURE_FIELDS);
    s.append(") VALUES (");
    s.append(values.as_str());
    s.append(")");
    s
}

/// The query for the record with the given URL, or with the given
/// thumbnail URL.
pub fn select_by_url_sql(is_thumb: bool) -> (s: &'static str)
    ensures
        s@ == if is_thumb { "SELECT * FROM picture where thumb = ?1"@ } else {
            "SELECT * FROM picture where url = ?1"@
        },
{
    if is_thumb {
        "SELECT * FROM picture where thumb = ?1"
    } else {
        "SELECT * FROM picture where url = ?1"
    }
}

/// The statement that removes the record with the given URL, or with the
/// given thumbnail URL.
pub fn delete_sql(is_thumb: bool) -> (s: &'static str)
    ensures
        s@ == if is_thumb { "DELETE FROM picture WHERE thumb = ?1"@ } else {
            "DELETE FROM picture WHERE url = ?1"@
        },
{
    if is_thumb {
        "DELETE FROM picture WHERE thumb = ?1"
    } else {
        "DELETE FROM picture WHERE url = ?1"
    }
}

/// A matcher aimed at every column of the picture table.
pub open spec fn on_pictures(m: MatcherView) -> MatcherView {
    MatcherView { table: "picture"@, fields: seq!["*"@], ..m }
}

/// The page query and the count query for a listing: the matcher is aimed
/// at every column of the picture table first.
pub fn list_queries(matcher: &mut Matcher) -> (r: (String, String))
    ensures
        final(matcher)@ == on_pictures(old(matcher)@),
        r.0@ == select_text(final(matcher)@),
        r.1@ == count_text(final(matcher)@),
{
    matcher.table("picture");
    let star: [&str; 1] = ["*"];
    matcher.fields(&star);
    assert(matcher@ =~= on_pictures(old(matcher)@)) by {
        assert(star@.map_values(|f: &str| f@) =~= seq!["*"@]);
    }
    proof { reveal_strlit("picture"); }
    let sql = matcher.build();
    let count_sql = matcher.build_count();
    (sql, count_sql)
}

/// The matcher of a listing page: `limit` pictures from position `start`.
pub fn page_matcher(start: i64, limit: i64) -> (m: Matcher)
    ensures
        m@ == (MatcherView { limit: Some(limit as isize), offset: Some(start as isize), ..MatcherView::empty() }),
{
    let mut m = Matcher::new();
    m.limit(limit as isize);
    m.offset(start as isize);
    m
}

/// The first row that was read without error.
pub fn first_found<T>(rows: Vec<Option<T>>) -> (r: Option<T>)
    ensures
        match r {
            Some(x) => exists|i: int| 0 <= i < rows@.len() && rows@[i] == Some(x)
                && forall|j: int| 0 <= j < i ==> rows@[j] is None,
            None => forall|j: int| 0 <= j < rows@.len() ==> rows@[j] is None,
        },
{
    let ghost all = rows@;
    let total = rows.len();
    let mut rest = rows;
    let mut taken: usize = 0;
    proof { assert(rest@ =~= all.skip(0)); }
    while rest.len() > 0
        invariant
            taken + rest@.len() == all.len(),
            all.len() == total,
            all == rows@,
            rest@ == all.skip(taken as int),
            forall|j: int| 0 <= j < taken ==> all[j] is None,
        decreases rest@.len(),
    {
        let head = rest.remove(0);
        assert(head == all[taken as int]);
        match head {
            Some(x) => {
                assert(all[taken as int] == Some(x));
                return Some(x);
            },
            None => {},
        }
        taken = taken + 1;
        assert(rest@ =~= all.skip(taken as int));
    }
    None
}

/// How deleting a record is reported: `删除成功, 行数=<rows>` on success,
/// the database's message otherwise.
pub fn del_outcome(result: (bool, String, isize, usize)) -> (r: Result<String, String>)
    ensures
        result.0 ==> (r matches Ok(m) && m@ == "删除成功, 行数="@ + nat_text(result.3 as nat)),
        !result.0 ==> (r matches Err(e) && e@ == result.1@),
{
    let (success, msg, _code, rows) = result;
    if success {
        let mut m = String::from_str("删除成功, 行数=");
        let t = nat_string(rows as u128);
        m.append(t.as_str());
        Ok(m)
    } else {
        Err(msg)
    }
}

/// The first step of deleting a picture by URL: an empty URL is refused;
/// otherwise the URL names a thumbnail when it contains `thumb`.
pub fn delete_target(url_arg: &str) -> (r: Result<bool, String>)
    ensures
        url_arg@.len() == 0 ==> (r matches Err(e) && e@ == "url不能为空"@),
        url_arg@.len() > 0 ==> (r matches Ok(is_thumb) && is_thumb == contains_text(url_arg@, "thumb"@)),
{
    if url_arg.is_empty() {
        return Err(String::from_str("url不能为空"));
    }
    let u = chars_of(url_arg);
    let t = chars_of("thumb");
    Ok(contains_chars(u.as_slice(), t.as_slice()))
}

/// The files to remove for a found record, thumbnail first; a missing
/// record is refused.
pub fn delete_files(found: Option<Data>) -> (r: Result<(String, String), String>)
    ensures
        match found {
            Some(d) => r matches Ok(p) && p.0@ == d.thumb@ && p.1@ == d.url@,
            None => r matches Err(e) && e@ == "找不到需要删除的图片"@,
        },
{
    match found {
        Some(d) => Ok((d.thumb, d.url)),
        None => Err(String::from_str("找不到需要删除的图片")),
    }
}

/// The error reported when removing the thumbnail (or the picture) fails.
pub fn removal_failure(thumb: bool) -> (e: String)
    ensures
        e@ == if thumb { "删除缩略图失败"@ } else { "删除图片失败"@ },
{
    if thumb {
        String::from_str("删除缩略图失败")
    } else {
        String::from_str("删除图片失败")
    }
}

/// What came back from a step of deleting a picture by URL.
pub enum DeleteEvent {
    /// Nothing has been done yet.
    Start,
    /// The record the lookup found, if any.
    Looked(Option<Data>),
    /// Whether removing the thumbnail's file worked; `picture` is the file
    /// still to remove.
    ThumbRemoved { ok: bool, picture: String },
    /// Whether removing the picture's file worked.
    PictureRemoved { ok: bool },
}

/// What to do next while deleting a picture by URL.
pub enum DeleteAction {
    /// Look the record up by its thumbnail URL, or by its URL.
    Lookup { is_thumb: bool },
    /// Remove the thumbnail's file, then the picture's.
    RemoveThumb { thumb: String, picture: String },
    /// Remove the picture's file.
    RemovePicture { picture: String },
    /// Delete the record, found by its thumbnail URL or by its URL.
    DropRecord { is_thumb: bool },
    /// Give up with this message.
    Fail(String),
}

/// The next step of deleting the picture named by `url_arg`: an empty URL
/// is refused, a missing record is refused, the thumbnail's file goes
/// before the picture's, a failed removal stops the deletion, and the
/// record goes last.
pub fn delete_step(url_arg: &str, event: DeleteEvent) -> (a: DeleteAction)
    ensures
        match event {
            DeleteEvent::Start => if url_arg@.len() == 0 {
                a matches DeleteAction::Fail(e) && e@ == "url不能为空"@
            } else {
                a matches DeleteAction::Lookup { is_thumb } && is_thumb == contains_text(url_arg@, "thumb"@)
            },
            DeleteEvent::Looked(found) => match found {
                Some(d) => a matches DeleteAction::RemoveThumb { thumb, picture } && thumb@ == d.thumb@
                    && picture@ == d.url@,
                None => a matches DeleteAction::Fail(e) && e@ == "找不到需要删除的图片"@,
            },
            DeleteEvent::ThumbRemoved { ok, picture } => if ok {
                a matches DeleteAction::RemovePicture { picture: p } && p@ == picture@
            } else {
                a matches DeleteAction::Fail(e) && e@ == "删除缩略图失败"@
            },
            DeleteEvent::PictureRemoved { ok } => if ok {
                a matches DeleteAction::DropRecord { is_thumb } && is_thumb == contains_text(url_arg@, "thumb"@)
            } else {
                a matches DeleteAction::Fail(e) && e@ == "删除图片失败"@
            },
        },
{
    match event {
        DeleteEvent::Start => match delete_target(url_arg) {
            Err(e) => DeleteAction::Fail(e),
            Ok(is_thumb) => DeleteAction::Lookup { is_thumb },
        },
        DeleteEvent::Looked(found) => match delete_files(found) {
            Err(e) => DeleteAction::Fail(e),
            Ok((thumb, picture)) => DeleteAction::RemoveThumb { thumb, picture },
        },
        DeleteEvent::ThumbRemoved { ok, picture } => if ok {
            DeleteAction::RemovePicture { picture }
        } else {
            DeleteAction::Fail(removal_failure(true))
        },
        DeleteEvent::PictureRemoved { ok } => if ok {
            let u = chars_of(url_arg);
            let t = chars_of("thumb");
            DeleteAction::DropRecord { is_thumb: contains_chars(u.as_slice(), t.as_slice()) }
        } else {
            DeleteAction::Fail(removal_failure(false))
        },
    }
}

} // verus!
