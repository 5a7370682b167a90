//! Reading a request: the path and query of a URL, the `key=value` pairs
//! of a body, and the content type of a static file.

use vstd::prelude::*;
use vstd::utf8::{decode_utf8, encode_utf8, valid_utf8};
use crate::text::{
    chars_of, ends_with, ends_with_chars, find_char, first_index,
    slice_chars, split_char, split_chars, string_of, views,
};

verus! {

broadcast use vstd::string::group_string_axioms;

/// The value of an ASCII hexadecimal digit.
pub open spec fn hex_value(b: u8) -> Option<u8> {
    if 48 <= b && b <= 57 {
        Some((b - 48) as u8)
    } else if 65 <= b && b <= 70 {
        Some((b - 55) as u8)
    } else if 97 <= b && b <= 102 {
        Some((b - 87) as u8)
    } else {
        None
    }
}

/// Percent-decoding of bytes: each `%` followed by two hexadecimal digits
/// becomes the byte they spell; every other byte, `+` included, stays.
pub open spec fn percent_decode(b: Seq<u8>) -> Seq<u8>
    decreases b.len(),
{
    if b.len() == 0 {
        Seq::<u8>::empty()
    } else if b[0] == 37 && b.len() >= 3 && hex_value(b[1]) is Some && hex_value(b[2]) is Some {
        seq![(hex_value(b[1])->0 * 16 + hex_value(b[2])->0) as u8] + percent_decode(b.skip(3))
    } else {
        seq![b[0]] + percent_decode(b.skip(1))
    }
}

/// The text that a percent-encoded text stands for, when the decoded bytes
/// are UTF-8.
pub open spec fn url_decoded(s: Seq<char>) -> Option<Seq<char>> {
    let bytes = percent_decode(encode_utf8(s));
    if valid_utf8(bytes) {
        Some(decode_utf8(bytes))
    } else {
        None
    }
}

/// Percent-decodes `s` with `urlencoding::decode`.
///
/// Claimed of the outside function: it replaces each `%` that two hex
/// digits follow by the byte they spell, keeps every other byte, and
/// succeeds exactly when the bytes it produced are UTF-8, giving their text.
#[verifier::external_body]
fn url_decode(s: &str) -> (r: Option<String>)
    ensures
        match r {
            Some(t) => url_decoded(s@) == Some(t@),
            None => url_decoded(s@) is None,
        },
{
    match urlencoding::decode(s) {
        Ok(t) => Some(t.into_owned()),
        Err(_) => None,
    }
}

/// `urlencoding::decode(s)`, when the decoded bytes are UTF-8.
pub fn decode_value(s: &str) -> (r: Option<String>)
    ensures
        match r {
            Some(t) => url_decoded(s@) == Some(t@),
            None => url_decoded(s@) is None,
        },
{
    url_decode(s)
}

/// A `key=value` piece of a request body.
pub struct KvPair {
    k: String,
    v: String,
}

/// A piece splits at its first `=` into key and value; a piece without `=`
/// is no pair.
pub open spec fn pair_of(seg: Seq<char>) -> Option<(Seq<char>, Seq<char>)> {
    match first_index(seg, '=') {
        Some(i) => Some((seg.take(i as int), seg.skip(i as int + 1))),
        None => None,
    }
}

impl View for KvPair {
    type V = (Seq<char>, Seq<char>);

    closed spec fn view(&self) -> (Seq<char>, Seq<char>) {
        (self.k@, self.v@)
    }
}

impl KvPair {
    /// Splits `s` at its first `=`; fails when there is none.
    pub fn from_str(s: &str) -> (r: Result<KvPair, String>)
        ensures
            match r {
                Ok(p) => pair_of(s@) == Some(p@),
                Err(e) => pair_of(s@) is None && e@ == s@,
            },
    {
        let c = chars_of(s);
        let n = c.len();
        match find_char(c.as_slice(), '=') {
            Some(i) => {
                assert(i < n);
                let k = slice_chars(c.as_slice(), 0, i);
                let v = slice_chars(c.as_slice(), i + 1, c.len());
                assert(k@ =~= s@.take(i as int));
                assert(v@ =~= s@.skip(i + 1));
                Ok(KvPair { k: string_of(k.as_slice()), v: string_of(v.as_slice()) })
            },
            None => Err(String::from_str(s)),
        }
    }

    pub fn key(&self) -> (k: &String)
        ensures
            k@ == self@.0,
    {
        &self.k
    }

    pub fn value(&self) -> (v: &String)
        ensures
            v@ == self@.1,
    {
        &self.v
    }
}

/// The map that a list of insertions leaves: later keys replace earlier.
pub open spec fn entries_map(e: Seq<(Seq<char>, Seq<char>)>) -> Map<Seq<char>, Seq<char>>
    decreases e.len(),
{
    if e.len() == 0 {
        Map::empty()
    } else {
        entries_map(e.drop_last()).insert(e.last().0, e.last().1)
    }
}

pub open spec fn pair_views(e: Seq<(String, String)>) -> Seq<(Seq<char>, Seq<char>)> {
    e.map_values(|p: (String, String)| (p.0@, p.1@))
}

/// Request parameters: a map from names to values.
pub struct Params {
    entries: Vec<(String, String)>,
}

impl View for Params {
    type V = Map<Seq<char>, Seq<char>>;

    closed spec fn view(&self) -> Map<Seq<char>, Seq<char>> {
        entries_map(pair_views(self.entries@))
    }
}

proof fn lemma_entries_map_last(e: Seq<(Seq<char>, Seq<char>)>, k: Seq<char>, i: int)
    requires
        0 <= i < e.len(),
        e[i].0 == k,
        forall|j: int| i < j < e.len() ==> e[j].0 != k,
    ensures
        entries_map(e).contains_key(k),
        entries_map(e)[k] == e[i].1,
    decreases e.len(),
{
    if i < e.len() - 1 {
        lemma_entries_map_last(e.drop_last(), k, i);
    }
}

proof fn lemma_entries_map_absent(e: Seq<(Seq<char>, Seq<char>)>, k: Seq<char>)
    requires
        forall|j: int| 0 <= j < e.len() ==> e[j].0 != k,
    ensures
        !entries_map(e).contains_key(k),
    decreases e.len(),
{
    if e.len() > 0 {
        lemma_entries_map_absent(e.drop_last(), k);
    }
}

impl Params {
    pub fn new() -> (p: Self)
        ensures
            p@ == Map::<Seq<char>, Seq<char>>::empty(),
    {
        let p = Params { entries: Vec::new() };
        assert(pair_views(p.entries@) =~= Seq::<(Seq<char>, Seq<char>)>::empty());
        p
    }

    /// Sets `k` to `v`, replacing what `k` had.
    pub fn insert(&mut self, k: String, v: String)
        ensures
            final(self)@ == old(self)@.insert(k@, v@),
    {
        let ghost before = pair_views(self.entries@);
        self.entries.push((k, v));
        assert(pair_views(self.entries@).drop_last() =~= before);
    }

    /// The value of `key`.
    pub fn get(&self, key: &str) -> (r: Option<&String>)
        ensures
            match r {
                Some(v) => self@.contains_key(key@) && v@ == self@[key@],
                None => !self@.contains_key(key@),
            },
    {
        let ghost e = pair_views(self.entries@);
        let key_s = String::from_str(key);
        let mut i: usize = self.entries.len();
        while i > 0
            invariant
                i <= self.entries@.len(),
                e == pair_views(self.entries@),
                key_s@ == key@,
                forall|j: int| i <= j < e.len() ==> e[j].0 != key@,
            decreases i,
        {
            i = i - 1;
            if self.entries[i].0 == key_s {
                proof { lemma_entries_map_last(e, key@, i as int); }
                return Some(&self.entries[i].1);
            }
        }
        proof { lemma_entries_map_absent(e, key@); }
        None
    }

    /// The insertions made so far, in order; replaying them gives the map.
    pub fn entries(&self) -> (r: Vec<(String, String)>)
        ensures
            entries_map(pair_views(r@)) == self@,
    {
        let mut r: Vec<(String, String)> = Vec::new();
        let mut i: usize = 0;
        while i < self.entries.len()
            invariant
                i <= self.entries@.len(),
                pair_views(r@) == pair_views(self.entries@).take(i as int),
            decreases self.entries@.len() - i,
        {
            let k = self.entries[i].0.clone();
            let v = self.entries[i].1.clone();
            assert(k@ == self.entries@[i as int].0@);
            assert(v@ == self.entries@[i as int].1@);
            let ghost before = r@;
            r.push((k, v));
            assert(r@ =~= before.push((k, v)));
            assert(pair_views(r@) =~= pair_views(before).push((k@, v@)));
            assert(pair_views(self.entries@).take(i + 1) =~= pair_views(self.entries@).take(
                i as int,
            ).push((k@, v@)));
            i = i + 1;
        }
        assert(pair_views(self.entries@).take(i as int) =~= pair_views(self.entries@));
        r
    }
}

/// The parameters of a body made of the given `&`-separated pieces: each
/// piece with an `=` and a non-empty key sets that key to its decoded value.
pub open spec fn body_params(segs: Seq<Seq<char>>) -> Map<Seq<char>, Seq<char>>
    decreases segs.len(),
{
    if segs.len() == 0 {
        Map::empty()
    } else {
        let m = body_params(segs.drop_last());
        match pair_of(segs.last()) {
            Some((k, v)) => if k.len() > 0 { m.insert(k, url_decoded(v)->0) } else { m },
            None => m,
        }
    }
}

/// Every value that the body sets decodes to UTF-8.
pub open spec fn body_decodes(body: Seq<char>) -> bool {
    let segs = split_char(body, '&');
    forall|i: int| 0 <= i < segs.len() ==> match #[trigger] pair_of(segs[i]) {
        Some((k, v)) => k.len() > 0 ==> url_decoded(v) is Some,
        None => true,
    }
}

/// Whether every value that `body` sets decodes to UTF-8; `parse_body`
/// needs it.
pub fn body_decodes_ok(body: &str) -> (b: bool)
    ensures
        b == body_decodes(body@),
{
    let chars = chars_of(body);
    let segs = split_chars(chars.as_slice(), '&');
    let ghost pieces = split_char(body@, '&');
    let mut i: usize = 0;
    while i < segs.len()
        invariant
            i <= segs@.len(),
            views(segs@) == pieces,
            pieces == split_char(body@, '&'),
            forall|j: int| 0 <= j < i ==> match #[trigger] pair_of(pieces[j]) {
                Some((k, v)) => k.len() > 0 ==> url_decoded(v) is Some,
                None => true,
            },
        decreases segs@.len() - i,
    {
        assert(pieces[i as int] == segs@[i as int]@);
        let seg = string_of(segs[i].as_slice());
        match KvPair::from_str(seg.as_str()) {
            Ok(pair) => {
                if !pair.key().as_str().is_empty() {
                    if url_decode(pair.value().as_str()).is_none() {
                        return false;
                    }
                }
            },
            Err(_) => {},
        }
        i = i + 1;
    }
    true
}

/// The parameters of a request body `k1=v1&k2=v2&...`. Pieces without `=`
/// or with an empty key are skipped; values are percent-decoded; a later
/// key replaces an earlier one.
pub fn parse_body(body: &str) -> (p: Params)
    requires
        body_decodes(body@),
    ensures
        p@ == body_params(split_char(body@, '&')),
{
    let chars = chars_of(body);
    let segs = split_chars(chars.as_slice(), '&');
    let ghost pieces = split_char(body@, '&');
    let mut params = Params::new();
    let mut i: usize = 0;
    while i < segs.len()
        invariant
            i <= segs@.len(),
            views(segs@) == pieces,
            pieces == split_char(body@, '&'),
            body_decodes(body@),
            params@ == body_params(pieces.take(i as int)),
        decreases segs@.len() - i,
    {
        assert(pieces[i as int] == segs@[i as int]@);
        assert(pieces.take(i + 1).drop_last() =~= pieces.take(i as int));
        let ghost seg_v = pieces[i as int];
        let seg = string_of(segs[i].as_slice());
        match KvPair::from_str(seg.as_str()) {
            Ok(pair) => {
                if !pair.key().as_str().is_empty() {
                    assert(match pair_of(pieces[i as int]) {
                        Some((k, v)) => k.len() > 0 ==> url_decoded(v) is Some,
                        None => true,
                    });
                    match url_decode(pair.value().as_str()) {
                        Some(v) => {
                            params.insert(pair.key().clone(), v);
                        },
                        None => {},
                    }
                }
            },
            Err(_) => {},
        }
        i = i + 1;
    }
    assert(pieces.take(i as int) =~= pieces);
    params
}

/// The path and query of a URL: with a `?`, the text before the first `?`
/// and the text after it up to the next `?`; without one, the URL itself and
/// the body.
pub open spec fn url_parts(url: Seq<char>, body: Seq<char>) -> (Seq<char>, Seq<char>) {
    match first_index(url, '?') {
        None => (url, body),
        Some(i) => {
            let rest = url.skip(i as int + 1);
            match first_index(rest, '?') {
                Some(j) => (url.take(i as int), rest.take(j as int)),
                None => (url.take(i as int), rest),
            }
        },
    }
}

/// Splits a URL into path and query; a URL without `?` keeps the body as
/// its query.
pub fn parse_url<'a>(url: &'a str, body: &'a str) -> (r: (&'a str, &'a str))
    ensures
        (r.0@, r.1@) == url_parts(url@, body@),
{
    let c = chars_of(url);
    let n = c.len();
    match find_char(c.as_slice(), '?') {
        None => (url, body),
        Some(i) => {
            assert(i < n);
            let rest = slice_chars(c.as_slice(), i + 1, c.len());
            assert(rest@ =~= url@.skip(i + 1));
            let end = match find_char(rest.as_slice(), '?') {
                Some(j) => {
                    assert(url@.skip(i + 1).take(j as int) =~= url@.subrange(i + 1, i + 1 + j));
                    i + 1 + j
                },
                None => {
                    assert(url@.skip(i + 1) =~= url@.subrange(i + 1, c.len() as int));
                    c.len()
                },
            };
            let path = url.substring_char(0, i);
            let query = url.substring_char(i + 1, end);
            assert(url@.subrange(0, i as int) =~= url@.take(i as int));
            (path, query)
        },
    }
}

/// The content type for a file name, by its extension.
pub open spec fn content_type_of(url: Seq<char>) -> Seq<char> {
    if ends_with(url, ".html"@) { "text/html; charset=UTF-8"@ }
    else if ends_with(url, ".css"@) { "text/css; charset=UTF-8"@ }
    else if ends_with(url, ".js"@) { "text/javascript; charset=UTF-8"@ }
    else if ends_with(url, ".json"@) { "application/json; charset=UTF-8"@ }
    else if ends_with(url, ".xml"@) { "application/xml; charset=UTF-8"@ }
    else if ends_with(url, ".pdf"@) { "application/pdf"@ }
    else if ends_with(url, ".png"@) { "image/png"@ }
    else if ends_with(url, ".jpg"@) { "image/jpeg"@ }
    else if ends_with(url, ".jpeg"@) { "image/jpeg"@ }
    else if ends_with(url, ".gif"@) { "image/gif"@ }
    else if ends_with(url, ".svg"@) { "image/svg+xml; charset=UTF-8"@ }
    else if ends_with(url, ".webp"@) { "image/webp"@ }
    else if ends_with(url, ".ogg"@) { "video/ogg"@ }
    else if ends_with(url, ".mp4"@) { "video/mp4"@ }
    else { "text/html; charset=UTF-8"@ }
}

fn has_suffix(u: &Vec<char>, suffix: &str) -> (b: bool)
    ensures
        b == ends_with(u@, suffix@),
{
    let s = chars_of(suffix);
    ends_with_chars(u.as_slice(), s.as_slice())
}

/// The content type for a file name, by its extension (HTML when unknown).
pub fn parse_content_type(start_url: &str) -> (r: &'static str)
    ensures
        r@ == content_type_of(start_url@),
{
    let u = chars_of(start_url);
    if has_suffix(&u, ".html") { "text/html; charset=UTF-8" }
    else if has_suffix(&u, ".css") { "text/css; charset=UTF-8" }
    else if has_suffix(&u, ".js") { "text/javascript; charset=UTF-8" }
    else if has_suffix(&u, ".json") { "application/json; charset=UTF-8" }
    else if has_suffix(&u, ".xml") { "application/xml; charset=UTF-8" }
    else if has_suffix(&u, ".pdf") { "application/pdf" }
    else if has_suffix(&u, ".png") { "image/png" }
    else if has_suffix(&u, ".jpg") { "image/jpeg" }
    else if has_suffix(&u, ".jpeg") { "image/jpeg" }
    else if has_suffix(&u, ".gif") { "image/gif" }
    else if has_suffix(&u, ".svg") { "image/svg+xml; charset=UTF-8" }
    else if has_suffix(&u, ".webp") { "image/webp" }
    else if has_suffix(&u, ".ogg") { "video/ogg" }
    else if has_suffix(&u, ".mp4") { "video/mp4" }
    else { "text/html; charset=UTF-8" }
}

} // verus!
