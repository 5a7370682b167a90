//! Telling API calls from static files, and which static file answers.

use vstd::prelude::*;
use crate::parse::{content_type_of, parse_content_type};
use crate::text::{chars_of, contains_chars, contains_text, slice_chars};

verus! {

broadcast use vstd::string::group_string_axioms;

/// Directory of the static site.
pub const STATIC_DIR: &'static str = "./web";

/// `s` without its leading `c`s.
pub open spec fn trim_start(s: Seq<char>, c: char) -> Seq<char>
    decreases s.len(),
{
    if s.len() > 0 && s[0] == c {
        trim_start(s.skip(1), c)
    } else {
        s
    }
}

/// `url` without its leading slashes.
pub fn trim_slashes(url: &str) -> (v: Vec<char>)
    ensures
        v@ == trim_start(url@, '/'),
{
    let u = chars_of(url);
    let mut i: usize = 0;
    assert(u@.skip(0) =~= u@);
    while i < u.len() && u[i] == '/'
        invariant
            i <= u@.len(),
            u@ == url@,
            trim_start(u@.skip(i as int), '/') == trim_start(url@, '/'),
        decreases u@.len() - i,
    {
        assert(u@.skip(i as int).skip(1) =~= u@.skip(i + 1));
        i = i + 1;
    }
    let v = slice_chars(u.as_slice(), i, u.len());
    assert(v@ =~= u@.skip(i as int));
    v
}

/// A request is an API call when its path, without leading slashes,
/// contains `api/`.
pub fn is_api_request(url: &str) -> (b: bool)
    ensures
        b == contains_text(trim_start(url@, '/'), "api/"@),
{
    let t = trim_slashes(url);
    let p = chars_of("api/");
    contains_chars(t.as_slice(), p.as_slice())
}

/// The file a static path names: `index.html` for the root.
pub open spec fn static_file_of(url: Seq<char>) -> Seq<char> {
    let t = trim_start(url, '/');
    if t.len() == 0 {
        STATIC_DIR@ + "/index.html"@
    } else {
        STATIC_DIR@ + seq!['/'] + t
    }
}

/// The file a static path names: `./web/index.html` for the root,
/// `./web/<path>` otherwise.
pub fn static_file_name(url: &str) -> (s: String)
    ensures
        s@ == static_file_of(url@),
{
    let t = trim_slashes(url);
    let mut s = String::from_str(STATIC_DIR);
    if t.len() == 0 {
        s.append("/index.html");
    } else {
        crate::text::push_char(&mut s, '/');
        let rest = crate::text::string_of(t.as_slice());
        s.append(rest.as_str());
    }
    s
}

/// The file that answers a static path and its content type: the file
/// itself when it exists, the 404 page otherwise.
pub fn static_target(url: &str, exists: bool) -> (r: (String, &'static str))
    ensures
        exists ==> r.0@ == static_file_of(url@) && r.1@ == content_type_of(trim_start(url@, '/')),
        !exists ==> r.0@ == STATIC_DIR@ + "/404.html"@ && r.1@ == "text/html; charset=utf-8"@,
{
    if exists {
        let t = trim_slashes(url);
        let ts = crate::text::string_of(t.as_slice());
        (static_file_name(url), parse_content_type(ts.as_str()))
    } else {
        let mut s = String::from_str(STATIC_DIR);
        s.append("/404.html");
        (s, "text/html; charset=utf-8")
    }
}

} // verus!
