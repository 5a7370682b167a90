//! Shared pieces: the answer sent back for API calls, typed request
//! parameters, and where uploaded files are kept.

use vstd::prelude::*;
use crate::parse::Params;
use crate::text::{digit_value, int_in_range, is_digit, parse_i8, parse_i32, parse_i64, parse_usize, push_char};

verus! {

broadcast use vstd::string::group_string_axioms;

/// Directory under which uploaded pictures are stored.
pub const RESOURCE_DIR: &'static str = "./web/res/pictures";

/// The answer to an API call.
pub struct ReqResult<T> {
    pub success: bool,
    pub msg: String,
    pub code: isize,
    pub data: T,
}

impl<T> ReqResult<T> {
    /// A successful answer: code 0.
    pub fn success(msg: &str, data: T) -> (r: Self)
        ensures
            r.success,
            r.code == 0,
            r.msg@ == msg@,
            r.data == data,
    {
        ReqResult { success: true, code: 0, msg: String::from_str(msg), data }
    }

    /// A failed answer: code -1.
    pub fn error(msg: &str, data: T) -> (r: Self)
        ensures
            !r.success,
            r.code == -1,
            r.msg@ == msg@,
            r.data == data,
    {
        ReqResult { success: false, code: -1, msg: String::from_str(msg), data }
    }
}

/// A type that a request parameter can be read as: `FromStr` for it.
pub trait ParamValue: Sized + View {
    /// The value that the text `s` reads as, if any.
    spec fn read_spec(s: Seq<char>) -> Option<Self::V>;

    fn read(s: &str) -> (r: Option<Self>)
        ensures
            match r {
                Some(x) => Self::read_spec(s@) == Some(x@),
                None => Self::read_spec(s@) is None,
            };
}

impl ParamValue for i8 {
    open spec fn read_spec(s: Seq<char>) -> Option<i8> {
        match int_in_range(s, true, i8::MIN as int, i8::MAX as int) {
            Some(v) => Some(v as i8),
            None => None,
        }
    }

    fn read(s: &str) -> (r: Option<i8>) {
        parse_i8(s)
    }
}

impl ParamValue for i32 {
    open spec fn read_spec(s: Seq<char>) -> Option<i32> {
        match int_in_range(s, true, i32::MIN as int, i32::MAX as int) {
            Some(v) => Some(v as i32),
            None => None,
        }
    }

    fn read(s: &str) -> (r: Option<i32>) {
        parse_i32(s)
    }
}

impl ParamValue for i64 {
    open spec fn read_spec(s: Seq<char>) -> Option<i64> {
        match int_in_range(s, true, i64::MIN as int, i64::MAX as int) {
            Some(v) => Some(v as i64),
            None => None,
        }
    }

    fn read(s: &str) -> (r: Option<i64>) {
        parse_i64(s)
    }
}

impl ParamValue for usize {
    open spec fn read_spec(s: Seq<char>) -> Option<usize> {
        match int_in_range(s, false, 0, usize::MAX as int) {
            Some(v) => Some(v as usize),
            None => None,
        }
    }

    fn read(s: &str) -> (r: Option<usize>) {
        parse_usize(s)
    }
}

impl ParamValue for String {
    open spec fn read_spec(s: Seq<char>) -> Option<Seq<char>> {
        Some(s)
    }

    fn read(s: &str) -> (r: Option<String>) {
        Some(String::from_str(s))
    }
}

/// The parameter `key` read as a `T`, or `default` when it is missing or
/// does not read as a `T`.
pub open spec fn param_or<T: ParamValue>(m: Map<Seq<char>, Seq<char>>, key: Seq<char>, default: T::V) -> T::V {
    if m.contains_key(key) {
        match T::read_spec(m[key]) {
            Some(x) => x,
            None => default,
        }
    } else {
        default
    }
}

/// The parameter `key` read as a `T`, or `default_value` when it is
/// missing or does not read as a `T`.
pub fn get_value<T: ParamValue>(params: &Params, key: &str, default_value: T) -> (r: T)
    ensures
        r@ == param_or::<T>(params@, key@, default_value@),
{
    match params.get(key) {
        Some(v) => match T::read(v.as_str()) {
            Some(x) => x,
            None => default_value,
        },
        None => default_value,
    }
}

/// The directory for a stored file:
/// `RESOURCE_DIR[/appid][/thumb]/year_month`.
pub open spec fn file_directory(is_thumb: bool, appid: Option<Seq<char>>, year_month: Seq<char>) -> Seq<char> {
    RESOURCE_DIR@ + (match appid {
        Some(a) => seq!['/'] + a,
        None => Seq::<char>::empty(),
    }) + (if is_thumb { "/thumb"@ } else { Seq::<char>::empty() }) + seq!['/'] + year_month
}

/// The text of an optional application id.
pub open spec fn appid_text(appid: Option<&String>) -> Option<Seq<char>> {
    match appid {
        Some(a) => Some(a@),
        None => None,
    }
}

/// The path of a stored file: `directory/uuid.ext`.
pub open spec fn file_path(directory: Seq<char>, uuid: Seq<char>, ext: Seq<char>) -> Seq<char> {
    directory + seq!['/'] + uuid + seq!['.'] + ext
}

/// The path and the URL (the same text) of a file stored in the month
/// `year_month`.
pub fn file_path_and_url_in(is_thumb: bool, appid: Option<&String>, year_month: &str, uuid: &str, ext: &str)
    -> (r: (String, String))
    ensures
        r.0@ == file_path(file_directory(is_thumb, appid_text(appid), year_month@), uuid@, ext@),
        r.1@ == r.0@,
{
    let mut directory = String::from_str(RESOURCE_DIR);
    match appid {
        Some(a) => {
            push_char(&mut directory, '/');
            directory.append(a.as_str());
        },
        None => {},
    }
    if is_thumb {
        directory.append("/thumb");
    }
    push_char(&mut directory, '/');
    directory.append(year_month);
    let mut path = String::from_str(directory.as_str());
    push_char(&mut path, '/');
    path.append(uuid);
    push_char(&mut path, '.');
    path.append(ext);
    let url = String::from_str(path.as_str());
    assert(path@ =~= file_path(file_directory(is_thumb, appid_text(appid), year_month@), uuid@, ext@));
    (path, url)
}

/// Text that `%Y%m` writes: the year, as four digits for the years 0 to
/// 9999 and otherwise as a sign and at least four digits, then the month as
/// two digits from `01` to `12`.
pub open spec fn is_year_month(s: Seq<char>) -> bool {
    let n = s.len() as int;
    &&& n >= 6
    &&& is_digit(s[0]) || s[0] == '+' || s[0] == '-'
    &&& forall|i: int| 1 <= i < n ==> is_digit(#[trigger] s[i])
    &&& 1 <= digit_value(s[n - 2]) * 10 + digit_value(s[n - 1]) <= 12
}

/// The current year and month in local time, written `%Y%m`, from
/// `chrono::Local::now().format("%Y%m").to_string()`.
///
/// Claimed of the outside call: the text has the shape `%Y%m` gives
/// (`is_year_month`). Which year and month come out depends on the clock
/// and the time zone, and nothing more is claimed of them.
#[verifier::external_body]
fn current_year_month() -> (s: String)
    ensures
        is_year_month(s@),
{
    chrono::Local::now().format("%Y%m").to_string()
}

/// The path and URL of a new file stored this month:
/// `RESOURCE_DIR[/appid][/thumb]/<year><month>/uuid.ext`.
pub fn get_file_path_and_url(is_thumb: bool, appid: Option<&String>, uuid: &str, ext: &str) -> (r: (String, String))
    ensures
        exists|ym: Seq<char>|
            is_year_month(ym) && r.0@ == #[trigger] file_path(file_directory(is_thumb, appid_text(appid), ym), uuid@, ext@),
        r.1@ == r.0@,
{
    let ym = current_year_month();
    let r = file_path_and_url_in(is_thumb, appid, ym.as_str(), uuid, ext);
    assert(is_year_month(ym@) && r.0@ == file_path(file_directory(is_thumb, appid_text(appid), ym@), uuid@, ext@));
    r
}

/// A path with its backslashes turned into slashes.
pub fn slash_path(path: &str) -> (s: String)
    ensures
        s@ == crate::text::replace_all(path@, "\\"@, "/"@),
{
    let p = crate::text::chars_of(path);
    let b = crate::text::chars_of("\\");
    let f = crate::text::chars_of("/");
    proof { reveal_strlit("\\"); }
    let r = crate::text::replace_chars(p.as_slice(), b.as_slice(), f.as_slice());
    crate::text::string_of(r.as_slice())
}

} // verus!
