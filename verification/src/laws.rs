//! Properties of the library that span its functions.

use vstd::prelude::*;
use crate::api::{delete_all_action, failed_urls, clean_url_list, get_all_action, upload_action, ActionView};
use crate::comm::param_or;
use crate::matcher::{clauses, cond_text, lemma_clauses_nonempty, CondView, Op};
use crate::parse::{body_params, content_type_of, pair_of, url_parts};
use crate::service::placeholders;
use crate::text::{
    all_digits, digit_char, digit_value, digits_value, first_index, int_in_range, int_literal, int_text,
    ends_with, lemma_first_index_facts, nat_text, replace_all, split_char, starts_with,
};

verus! {

proof fn lemma_digit_char(d: int)
    requires
        0 <= d < 10,
    ensures
        '0' <= digit_char(d) <= '9',
        digit_value(digit_char(d)) == d,
{
}

/// The decimal text of a natural number is a non-empty run of digits
/// whose value is the number.
pub proof fn lemma_nat_text(n: nat)
    ensures
        nat_text(n).len() > 0,
        all_digits(nat_text(n)),
        digits_value(nat_text(n)) == n,
    decreases n,
{
    if n < 10 {
        lemma_digit_char(n as int);
        let t = nat_text(n);
        assert(t.drop_last() =~= Seq::<char>::empty());
        assert(digits_value(t) == digits_value(t.drop_last()) * 10 + digit_value(t.last()));
    } else {
        lemma_nat_text(n / 10);
        lemma_digit_char((n % 10) as int);
        let t = nat_text(n);
        assert(t.drop_last() =~= nat_text(n / 10));
        assert(t.last() == digit_char((n % 10) as int));
        assert(digits_value(t) == digits_value(t.drop_last()) * 10 + digit_value(t.last()));
        assert forall|i: int| 0 <= i < t.len() implies crate::text::is_digit(#[trigger] t[i]) by {
            if i < t.len() - 1 {
                assert(t[i] == nat_text(n / 10)[i]);
            }
        }
        assert(n == (n / 10) * 10 + n % 10) by (nonlinear_arith);
    }
}

/// Reading back what `to_string` writes gives the number again: the
/// default of `get_value`, written and read, is the default itself.
pub proof fn lemma_int_text_reads_back(n: int)
    ensures
        int_literal(int_text(n), true) == Some(n),
        n >= 0 ==> int_literal(int_text(n), false) == Some(n),
{
    if n >= 0 {
        lemma_nat_text(n as nat);
        let t = nat_text(n as nat);
        assert('0' <= t[0] <= '9');
    } else {
        lemma_nat_text((-n) as nat);
        let t = seq!['-'] + nat_text((-n) as nat);
        assert(t.skip(1) =~= nat_text((-n) as nat));
    }
}

proof fn lemma_split_extend(s: Seq<char>, t: Seq<char>, c: char)
    requires
        !t.contains(c),
    ensures
        split_char(s + t, c).len() == split_char(s, c).len(),
    decreases t.len(),
{
    if t.len() > 0 {
        let u = s + t;
        assert(u.drop_last() =~= s + t.drop_last());
        assert(u.last() == t.last());
        assert(t[t.len() - 1] == t.last());
        assert(!t.drop_last().contains(c)) by {
            if t.drop_last().contains(c) {
                let k = choose|k: int| 0 <= k < t.drop_last().len() && t.drop_last()[k] == c;
                assert(t[k] == c);
            }
        }
        lemma_split_extend(s, t.drop_last(), c);
        lemma_split_nonempty(u.drop_last(), c);
    } else {
        assert(s + t =~= s);
    }
}

/// A split has at least one piece.
pub proof fn lemma_split_nonempty(s: Seq<char>, c: char)
    ensures
        split_char(s, c).len() >= 1,
    decreases s.len(),
{
    if s.len() > 0 {
        lemma_split_nonempty(s.drop_last(), c);
    }
}

/// `turn_values` writes as many placeholders as there are fields: its text
/// splits at commas into exactly `n` pieces.
pub proof fn lemma_placeholders_count(n: nat)
    requires
        n >= 1,
    ensures
        split_char(placeholders(n), ',').len() == n,
    decreases n,
{
    lemma_nat_text(n);
    let tail = seq!['?'] + nat_text(n);
    assert(!tail.contains(',')) by {
        if tail.contains(',') {
            let k = choose|k: int| 0 <= k < tail.len() && tail[k] == ',';
            assert(k > 0);
            assert(nat_text(n)[k - 1] == ',');
        }
    }
    if n == 1 {
        assert(placeholders(1) =~= Seq::<char>::empty() + tail);
        lemma_split_extend(Seq::<char>::empty(), tail, ',');
    } else {
        lemma_placeholders_count((n - 1) as nat);
        let head = placeholders((n - 1) as nat).push(',');
        assert(placeholders(n) =~= head + tail);
        lemma_split_extend(head, tail, ',');
        assert(head.drop_last() =~= placeholders((n - 1) as nat));
    }
}

/// Splitting a URL: without `?` the URL and body come back as they are;
/// with one, the URL begins with `path?query` and neither part holds a `?`.
pub proof fn lemma_url_parts(url: Seq<char>, body: Seq<char>)
    ensures
        !url.contains('?') ==> url_parts(url, body) == (url, body),
        url.contains('?') ==> ({
            let (p, q) = url_parts(url, body);
            &&& starts_with(url, p + seq!['?'] + q)
            &&& !p.contains('?')
            &&& !q.contains('?')
        }),
{
    lemma_first_index_facts(url, '?');
    match first_index(url, '?') {
        None => {},
        Some(i) => {
            let rest = url.skip(i as int + 1);
            lemma_first_index_facts(rest, '?');
            let (p, q) = url_parts(url, body);
            assert(p =~= url.take(i as int));
            let j: int = match first_index(rest, '?') {
                Some(j) => j as int,
                None => rest.len() as int,
            };
            assert(q =~= rest.take(j));
            assert(url.take((p + seq!['?'] + q).len() as int) =~= p + seq!['?'] + q);
            assert(!p.contains('?')) by {
                if p.contains('?') {
                    let k = choose|k: int| 0 <= k < p.len() && p[k] == '?';
                    assert(url[k] == '?');
                }
            }
            assert(!q.contains('?')) by {
                if q.contains('?') {
                    let k = choose|k: int| 0 <= k < q.len() && q[k] == '?';
                    assert(rest[k] == '?');
                }
            }
        },
    }
}

/// No piece of a split holds the separator, and every character of a
/// piece comes from the text.
pub proof fn lemma_split_pieces(s: Seq<char>, c: char)
    ensures
        forall|i: int| 0 <= i < split_char(s, c).len() ==> !(#[trigger] split_char(s, c)[i]).contains(c),
        forall|i: int, x: char| 0 <= i < split_char(s, c).len() && #[trigger] split_char(s, c)[i].contains(x)
            ==> s.contains(x),
    decreases s.len(),
{
    if s.len() > 0 {
        let prev = s.drop_last();
        lemma_split_pieces(prev, c);
        lemma_split_nonempty(prev, c);
        let pieces = split_char(prev, c);
        assert forall|i: int| 0 <= i < split_char(s, c).len() implies !(#[trigger] split_char(s, c)[i]).contains(c)
            && forall|x: char| split_char(s, c)[i].contains(x) ==> s.contains(x) by {
            if i < pieces.len() - 1 || s.last() == c && i < pieces.len() {
                assert(split_char(s, c)[i] == pieces[i]);
                assert forall|x: char| split_char(s, c)[i].contains(x) implies s.contains(x) by {
                    assert(pieces[i].contains(x));
                    assert(prev.contains(x));
                    let k = choose|k: int| 0 <= k < prev.len() && prev[k] == x;
                    assert(s[k] == x);
                }
            } else if s.last() == c {
                assert(split_char(s, c)[i] =~= Seq::<char>::empty());
            } else {
                let p = split_char(s, c)[i];
                assert(p =~= pieces.last().push(s.last()));
                assert(pieces[pieces.len() - 1] == pieces.last());
                assert(!p.contains(c)) by {
                    if p.contains(c) {
                        let k = choose|k: int| 0 <= k < p.len() && p[k] == c;
                        if k < p.len() - 1 {
                            assert(pieces.last()[k] == c);
                        }
                    }
                }
                assert forall|x: char| p.contains(x) implies s.contains(x) by {
                    let k = choose|k: int| 0 <= k < p.len() && p[k] == x;
                    if k < p.len() - 1 {
                        assert(pieces.last().contains(x));
                        assert(pieces[pieces.len() - 1].contains(x));
                        assert(prev.contains(x));
                        let m = choose|m: int| 0 <= m < prev.len() && prev[m] == x;
                        assert(s[m] == x);
                    } else {
                        assert(s[s.len() - 1] == x);
                    }
                }
            }
        }
    } else {
        assert forall|i: int| 0 <= i < split_char(s, c).len() implies !(#[trigger] split_char(s, c)[i]).contains(c)
            by {
            assert(split_char(s, c)[i] =~= Seq::<char>::empty());
        }
    }
}

/// Replacing never brings in a character that neither the text nor the
/// replacement holds.
pub proof fn lemma_replace_keeps_out(s: Seq<char>, p: Seq<char>, r: Seq<char>, x: char)
    requires
        !s.contains(x),
        !r.contains(x),
    ensures
        !replace_all(s, p, r).contains(x),
    decreases s.len(),
{
    if p.len() > 0 && s.len() > 0 {
        if starts_with(s, p) {
            let rest = s.skip(p.len() as int);
            assert(!rest.contains(x)) by {
                if rest.contains(x) {
                    let k = choose|k: int| 0 <= k < rest.len() && rest[k] == x;
                    assert(s[k + p.len()] == x);
                }
            }
            lemma_replace_keeps_out(rest, p, r, x);
            let out = replace_all(s, p, r);
            assert(!out.contains(x)) by {
                if out.contains(x) {
                    let k = choose|k: int| 0 <= k < out.len() && out[k] == x;
                    if k < r.len() {
                        assert(r[k] == x);
                    } else {
                        assert(replace_all(rest, p, r)[k - r.len()] == x);
                    }
                }
            }
        } else {
            let rest = s.skip(1);
            assert(!rest.contains(x)) by {
                if rest.contains(x) {
                    let k = choose|k: int| 0 <= k < rest.len() && rest[k] == x;
                    assert(s[k + 1] == x);
                }
            }
            lemma_replace_keeps_out(rest, p, r, x);
            let out = replace_all(s, p, r);
            assert(!out.contains(x)) by {
                if out.contains(x) {
                    let k = choose|k: int| 0 <= k < out.len() && out[k] == x;
                    if k == 0 {
                        assert(s[0] == x);
                    } else {
                        assert(replace_all(rest, p, r)[k - 1] == x);
                    }
                }
            }
        }
    }
}

/// Replacing a single character by nothing leaves none of it.
pub proof fn lemma_replace_removes(s: Seq<char>, c: char)
    ensures
        !replace_all(s, seq![c], Seq::<char>::empty()).contains(c),
    decreases s.len(),
{
    let p = seq![c];
    if s.len() > 0 {
        if starts_with(s, p) {
            lemma_replace_removes(s.skip(1), c);
            assert(replace_all(s, p, Seq::<char>::empty()) =~= replace_all(s.skip(1), p, Seq::<char>::empty()));
        } else {
            lemma_replace_removes(s.skip(1), c);
            assert(s.take(1) =~= seq![s[0]]);
            assert(s[0] != c);
            let out = replace_all(s, p, Seq::<char>::empty());
            assert(!out.contains(c)) by {
                if out.contains(c) {
                    let k = choose|k: int| 0 <= k < out.len() && out[k] == c;
                    if k > 0 {
                        assert(replace_all(s.skip(1), p, Seq::<char>::empty())[k - 1] == c);
                    }
                }
            }
        }
    }
}

/// A condition added by `and` or `or` extends the `where` clauses: it
/// becomes the only clause, or follows the earlier ones after ` and ` or
/// ` or `.
pub proof fn lemma_add_condition(conds: Seq<CondView>, c: CondView)
    ensures
        clauses(conds.push(c)) == if conds.len() == 0 {
            cond_text(c)
        } else {
            clauses(conds) + (if c.and { " and "@ } else { " or "@ }) + cond_text(c)
        },
{
    assert(conds.push(c).drop_last() =~= conds);
    lemma_clauses_nonempty(conds);
}

proof fn lemma_params_keys(segs: Seq<Seq<char>>)
    requires
        forall|j: int| 0 <= j < segs.len() ==> !(#[trigger] segs[j]).contains('&'),
    ensures
        forall|k: Seq<char>| #[trigger] body_params(segs).contains_key(k) ==> k.len() > 0 && !k.contains('=')
            && !k.contains('&'),
    decreases segs.len(),
{
    if segs.len() > 0 {
        let prev = segs.drop_last();
        assert forall|j: int| 0 <= j < prev.len() implies !(#[trigger] prev[j]).contains('&') by {
            assert(prev[j] == segs[j]);
        }
        lemma_params_keys(prev);
        let seg = segs.last();
        assert(!segs[segs.len() - 1].contains('&'));
        lemma_first_index_facts(seg, '=');
        match first_index(seg, '=') {
            Some(i) => {
                let k0 = seg.take(i as int);
                assert(!k0.contains('=')) by {
                    if k0.contains('=') {
                        let m = choose|m: int| 0 <= m < k0.len() && k0[m] == '=';
                        assert(seg[m] == '=');
                    }
                }
                assert(!k0.contains('&')) by {
                    if k0.contains('&') {
                        let m = choose|m: int| 0 <= m < k0.len() && k0[m] == '&';
                        assert(seg[m] == '&');
                    }
                }
                let v0 = seg.skip(i as int + 1);
                assert(pair_of(seg) == Some((k0, v0)));
                assert(body_params(segs) == (if k0.len() > 0 {
                    body_params(prev).insert(k0, crate::parse::url_decoded(v0)->0)
                } else {
                    body_params(prev)
                }));
                assert forall|k: Seq<char>| #[trigger] body_params(segs).contains_key(k) implies k.len() > 0
                    && !k.contains('=') && !k.contains('&') by {
                    if k != k0 {
                        assert(body_params(prev).contains_key(k));
                    }
                }
            },
            None => {
                assert(pair_of(seg) is None);
                assert(body_params(segs) == body_params(prev));
            },
        }
    } else {
        assert(body_params(segs) == Map::<Seq<char>, Seq<char>>::empty());
    }
}

/// Every parameter name read from a body is non-empty and holds neither
/// `=` nor `&`.
pub proof fn lemma_body_keys(body: Seq<char>)
    ensures
        forall|k: Seq<char>| #[trigger] body_params(split_char(body, '&')).contains_key(k) ==> k.len() > 0
            && !k.contains('=') && !k.contains('&'),
{
    lemma_split_pieces(body, '&');
    lemma_params_keys(split_char(body, '&'));
}

/// The URLs that `/deleteAll` deletes hold no `[`, `]`, `"` or `,`.
pub proof fn lemma_delete_all_urls(m: Map<Seq<char>, Seq<char>>)
    ensures
        delete_all_action(m) matches ActionView::DeleteMany { urls } ==> forall|i: int| 0 <= i < urls.len() ==> {
            &&& !(#[trigger] urls[i]).contains('[')
            &&& !urls[i].contains(']')
            &&& !urls[i].contains('"')
            &&& !urls[i].contains(',')
        },
{
    reveal_strlit("[");
    reveal_strlit("]");
    reveal_strlit("\"");
    assert("["@ =~= seq!['[']);
    assert("]"@ =~= seq![']']);
    assert("\""@ =~= seq!['"']);
    let e = Seq::<char>::empty();
    let s0 = param_or::<String>(m, "url"@, e);
    let s1 = replace_all(s0, seq!['['], e);
    let s2 = replace_all(s1, seq![']'], e);
    let s3 = replace_all(s2, seq!['"'], e);
    assert(clean_url_list(s0) == s3);
    lemma_replace_removes(s0, '[');
    lemma_replace_removes(s1, ']');
    lemma_replace_removes(s2, '"');
    lemma_replace_keeps_out(s1, seq![']'], e, '[');
    lemma_replace_keeps_out(s2, seq!['"'], e, '[');
    lemma_replace_keeps_out(s2, seq!['"'], e, ']');
    lemma_split_pieces(s3, ',');
}

/// `/deleteAll` reports failures exactly when some URL was not deleted,
/// and never more failures than URLs.
pub proof fn lemma_failed_urls(urls: Seq<Seq<char>>, deleted: Seq<bool>)
    requires
        urls.len() == deleted.len(),
    ensures
        failed_urls(urls, deleted).len() == 0 <==> forall|i: int| 0 <= i < deleted.len() ==> deleted[i],
        failed_urls(urls, deleted).len() <= urls.len(),
    decreases urls.len(),
{
    if urls.len() > 0 {
        lemma_failed_urls(urls.drop_last(), deleted.drop_last());
        if deleted.last() {
            assert forall|i: int| 0 <= i < deleted.drop_last().len() && (forall|j: int| 0 <= j < deleted.drop_last().len() ==> deleted.drop_last()[j]) implies deleted[i] by {
                assert(deleted.drop_last()[i] == deleted[i]);
            }
            if forall|i: int| 0 <= i < deleted.len() ==> deleted[i] {
                assert forall|j: int| 0 <= j < deleted.drop_last().len() implies deleted.drop_last()[j] by {
                    assert(deleted.drop_last()[j] == deleted[j]);
                }
            }
            if forall|j: int| 0 <= j < deleted.drop_last().len() ==> deleted.drop_last()[j] {
                assert forall|i: int| 0 <= i < deleted.len() implies deleted[i] by {
                    if i < deleted.len() - 1 {
                        assert(deleted.drop_last()[i] == deleted[i]);
                    }
                }
            }
        } else {
            assert(!deleted[deleted.len() - 1]);
        }
    }
}

/// The quality an upload asks for: the `quality` parameter when it reads
/// as an `i8`, 40 otherwise.
pub open spec fn asked_quality(m: Map<Seq<char>, Seq<char>>) -> int {
    if m.contains_key("quality"@) && int_in_range(m["quality"@], true, -128, 127) is Some {
        int_in_range(m["quality"@], true, -128, 127)->0
    } else {
        40
    }
}

/// An upload with data is compressed at the quality it asks for (40 when
/// it asks for none that reads as an `i8`); it is kept as sent exactly when
/// that quality is below 10 or at least 100, and is otherwise stored as
/// WebP.
pub proof fn law_upload_quality(m: Map<Seq<char>, Seq<char>>)
    requires
        m.contains_key("data"@),
    ensures
        match upload_action(m) {
            ActionView::Upload(p) => {
                &&& p.quality == asked_quality(m)
                &&& p.origin_upload == (asked_quality(m) < 10 || asked_quality(m) >= 100)
                &&& !p.origin_upload ==> p.file_type == "webp"@
            },
            _ => false,
        },
{
}

/// Each comparison is written as its own SQL operator: `<`, `>` and `=`
/// are single characters, `<=` and `>=` add `=` to `<` and `>`, `!=`
/// puts `!` before `=`, and the negated words put `not ` before theirs. No
/// two comparisons share a text.
pub proof fn law_op_texts(a: Op, b: Op)
    ensures
        Op::Lt.text() == seq!['<'],
        Op::Gt.text() == seq!['>'],
        Op::Eq.text() == seq!['='],
        Op::LtEq.text() == Op::Lt.text() + Op::Eq.text(),
        Op::GtEq.text() == Op::Gt.text() + Op::Eq.text(),
        Op::NotEq.text() == seq!['!'] + Op::Eq.text(),
        Op::In.text() == seq!['i', 'n'],
        Op::Like.text() == seq!['l', 'i', 'k', 'e'],
        Op::NotIn.text() == seq!['n', 'o', 't', ' '] + Op::In.text(),
        Op::NotLike.text() == seq!['n', 'o', 't', ' '] + Op::Like.text(),
        a != b ==> a.text() != b.text(),
{
    reveal_strlit("=");
    reveal_strlit("!=");
    reveal_strlit(">");
    reveal_strlit("<");
    reveal_strlit(">=");
    reveal_strlit("<=");
    reveal_strlit("in");
    reveal_strlit("not in");
    reveal_strlit("like");
    reveal_strlit("not like");
    assert(Op::LtEq.text() =~= Op::Lt.text() + Op::Eq.text());
    assert(Op::GtEq.text() =~= Op::Gt.text() + Op::Eq.text());
    assert(Op::NotEq.text() =~= seq!['!'] + Op::Eq.text());
    assert(Op::NotIn.text() =~= seq!['n', 'o', 't', ' '] + Op::In.text());
    assert(Op::NotLike.text() =~= seq!['n', 'o', 't', ' '] + Op::Like.text());
    if a != b {
        let (x, y) = (a.text(), b.text());
        if x.len() == y.len() {
            assert(x[0] != y[0] || x[x.len() - 1] != y[y.len() - 1]);
        }
    }
}

/// The number of `false` entries.
pub open spec fn false_count(d: Seq<bool>) -> nat
    decreases d.len(),
{
    if d.len() == 0 {
        0
    } else {
        false_count(d.drop_last()) + if d.last() { 0nat } else { 1nat }
    }
}

/// `/deleteAll` reports a URL as failed exactly when its own deletion
/// failed: there are as many failures as `false` entries, each reported URL
/// is one whose deletion failed, each URL whose deletion failed is
/// reported, and they come in the order of the URLs: the failures among the
/// first `i` URLs begin the list.
pub proof fn law_failed_urls_exact(urls: Seq<Seq<char>>, deleted: Seq<bool>)
    requires
        urls.len() == deleted.len(),
    ensures
        failed_urls(urls, deleted).len() == false_count(deleted),
        forall|k: int| 0 <= k < failed_urls(urls, deleted).len()
            ==> exists|i: int| 0 <= i < urls.len() && !deleted[i] && #[trigger] failed_urls(urls, deleted)[k] == urls[i],
        forall|i: int| 0 <= i < urls.len() && !deleted[i] ==> failed_urls(urls, deleted).contains(#[trigger] urls[i]),
        forall|i: int| 0 <= i <= urls.len() ==> ({
            let head = #[trigger] failed_urls(urls.take(i), deleted.take(i));
            head.len() <= failed_urls(urls, deleted).len()
                && failed_urls(urls, deleted).take(head.len() as int) == head
        }),
    decreases urls.len(),
{
    if urls.len() > 0 {
        let (pu, pd) = (urls.drop_last(), deleted.drop_last());
        law_failed_urls_exact(pu, pd);
        let prev = failed_urls(pu, pd);
        let f = failed_urls(urls, deleted);
        let n = urls.len() - 1;
        assert forall|k: int| 0 <= k < f.len()
            implies exists|i: int| 0 <= i < urls.len() && !deleted[i] && #[trigger] f[k] == urls[i] by {
            if k < prev.len() {
                let i = choose|i: int| 0 <= i < pu.len() && !pd[i] && #[trigger] prev[k] == pu[i];
                assert(f[k] == urls[i] && !deleted[i]);
            } else {
                assert(f[k] == urls[n] && !deleted[n]);
            }
        }
        assert forall|i: int| 0 <= i < urls.len() && !deleted[i] implies f.contains(#[trigger] urls[i]) by {
            if i < n {
                assert(pu[i] == urls[i] && pd[i] == deleted[i]);
                let k = choose|k: int| 0 <= k < prev.len() && prev[k] == pu[i];
                assert(f[k] == urls[i]);
            } else {
                assert(f[f.len() - 1] == urls[i]);
            }
        }
        assert(f.take(prev.len() as int) =~= prev);
        assert forall|i: int| 0 <= i <= urls.len() implies ({
            let head = #[trigger] failed_urls(urls.take(i), deleted.take(i));
            head.len() <= f.len() && f.take(head.len() as int) == head
        }) by {
            if i == urls.len() {
                assert(urls.take(i) =~= urls);
                assert(deleted.take(i) =~= deleted);
                assert(f.take(f.len() as int) =~= f);
            } else {
                assert(pu.take(i) =~= urls.take(i));
                assert(pd.take(i) =~= deleted.take(i));
                let head = failed_urls(pu.take(i), pd.take(i));
                assert(prev.take(head.len() as int) == head);
                assert(f.take(head.len() as int) =~= prev.take(head.len() as int));
            }
        }
    }
}

/// A page request starts at `(current - 1) * limit` and takes `limit`
/// pictures, for the `current` and `limit` read from the body (1 and 0
/// when missing).
pub proof fn law_page_start(m: Map<Seq<char>, Seq<char>>, c: int, l: int)
    requires
        m.contains_key("current"@) ==> int_in_range(m["current"@], true, i64::MIN as int, i64::MAX as int) == Some(c),
        !m.contains_key("current"@) ==> c == 1,
        m.contains_key("limit"@) ==> int_in_range(m["limit"@], true, i64::MIN as int, i64::MAX as int) == Some(l),
        !m.contains_key("limit"@) ==> l == 0,
        i64::MIN <= (c - 1) * l <= i64::MAX,
    ensures
        match get_all_action(m) {
            ActionView::ListPage { start, limit } => start == (c - 1) * l && limit == l,
            _ => false,
        },
{
}

/// A file name that does not end in `p`: its `k`-th character from the
/// end differs from that of `p`.
proof fn lemma_not_ending(s: Seq<char>, p: Seq<char>, k: int)
    requires
        1 <= k <= p.len(),
        k <= s.len(),
        s[s.len() - k] != p[p.len() - k],
    ensures
        !ends_with(s, p),
{
    if ends_with(s, p) {
        assert(s.skip(s.len() - p.len())[p.len() - k] == s[s.len() - k]);
    }
}

proof fn lemma_type_html(n: Seq<char>)
    ensures
        content_type_of(n + ".html"@) == "text/html; charset=UTF-8"@,
{
    reveal_strlit(".html");
    let s = n + ".html"@;
    assert(s.skip(n.len() as int) =~= ".html"@);

}

proof fn lemma_type_css(n: Seq<char>)
    ensures
        content_type_of(n + ".css"@) == "text/css; charset=UTF-8"@,
{
    reveal_strlit(".css");
    reveal_strlit(".html");
    let s = n + ".css"@;
    assert(s.skip(n.len() as int) =~= ".css"@);
    lemma_not_ending(s, ".html"@, 1);
}

proof fn lemma_type_js(n: Seq<char>)
    ensures
        content_type_of(n + ".js"@) == "text/javascript; charset=UTF-8"@,
{
    reveal_strlit(".js");
    reveal_strlit(".html");
    reveal_strlit(".css");
    let s = n + ".js"@;
    assert(s.skip(n.len() as int) =~= ".js"@);
    lemma_not_ending(s, ".html"@, 1);
    lemma_not_ending(s, ".css"@, 2);
}

proof fn lemma_type_json(n: Seq<char>)
    ensures
        content_type_of(n + ".json"@) == "application/json; charset=UTF-8"@,
{
    reveal_strlit(".json");
    reveal_strlit(".html");
    reveal_strlit(".css");
    reveal_strlit(".js");
    let s = n + ".json"@;
    assert(s.skip(n.len() as int) =~= ".json"@);
    lemma_not_ending(s, ".html"@, 1);
    lemma_not_ending(s, ".css"@, 1);
    lemma_not_ending(s, ".js"@, 1);
}

proof fn lemma_type_xml(n: Seq<char>)
    ensures
        content_type_of(n + ".xml"@) == "application/xml; charset=UTF-8"@,
{
    reveal_strlit(".xml");
    reveal_strlit(".html");
    reveal_strlit(".css");
    reveal_strlit(".js");
    reveal_strlit(".json");
    let s = n + ".xml"@;
    assert(s.skip(n.len() as int) =~= ".xml"@);
    lemma_not_ending(s, ".html"@, 3);
    lemma_not_ending(s, ".css"@, 1);
    lemma_not_ending(s, ".js"@, 1);
    lemma_not_ending(s, ".json"@, 1);
}

proof fn lemma_type_pdf(n: Seq<char>)
    ensures
        content_type_of(n + ".pdf"@) == "application/pdf"@,
{
    reveal_strlit(".pdf");
    reveal_strlit(".html");
    reveal_strlit(".css");
    reveal_strlit(".js");
    reveal_strlit(".json");
    reveal_strlit(".xml");
    let s = n + ".pdf"@;
    assert(s.skip(n.len() as int) =~= ".pdf"@);
    lemma_not_ending(s, ".html"@, 1);
    lemma_not_ending(s, ".css"@, 1);
    lemma_not_ending(s, ".js"@, 1);
    lemma_not_ending(s, ".json"@, 1);
    lemma_not_ending(s, ".xml"@, 1);
}

proof fn lemma_type_png(n: Seq<char>)
    ensures
        content_type_of(n + ".png"@) == "image/png"@,
{
    reveal_strlit(".png");
    reveal_strlit(".html");
    reveal_strlit(".css");
    reveal_strlit(".js");
    reveal_strlit(".json");
    reveal_strlit(".xml");
    reveal_strlit(".pdf");
    let s = n + ".png"@;
    assert(s.skip(n.len() as int) =~= ".png"@);
    lemma_not_ending(s, ".html"@, 1);
    lemma_not_ending(s, ".css"@, 1);
    lemma_not_ending(s, ".js"@, 1);
    lemma_not_ending(s, ".json"@, 1);
    lemma_not_ending(s, ".xml"@, 1);
    lemma_not_ending(s, ".pdf"@, 1);
}

proof fn lemma_type_jpg(n: Seq<char>)
    ensures
        content_type_of(n + ".jpg"@) == "image/jpeg"@,
{
    reveal_strlit(".jpg");
    reveal_strlit(".html");
    reveal_strlit(".css");
    reveal_strlit(".js");
    reveal_strlit(".json");
    reveal_strlit(".xml");
    reveal_strlit(".pdf");
    reveal_strlit(".png");
    let s = n + ".jpg"@;
    assert(s.skip(n.len() as int) =~= ".jpg"@);
    lemma_not_ending(s, ".html"@, 1);
    lemma_not_ending(s, ".css"@, 1);
    lemma_not_ending(s, ".js"@, 1);
    lemma_not_ending(s, ".json"@, 1);
    lemma_not_ending(s, ".xml"@, 1);
    lemma_not_ending(s, ".pdf"@, 1);
    lemma_not_ending(s, ".png"@, 2);
}

proof fn lemma_type_jpeg(n: Seq<char>)
    ensures
        content_type_of(n + ".jpeg"@) == "image/jpeg"@,
{
    reveal_strlit(".jpeg");
    reveal_strlit(".html");
    reveal_strlit(".css");
    reveal_strlit(".js");
    reveal_strlit(".json");
    reveal_strlit(".xml");
    reveal_strlit(".pdf");
    reveal_strlit(".png");
    reveal_strlit(".jpg");
    let s = n + ".jpeg"@;
    assert(s.skip(n.len() as int) =~= ".jpeg"@);
    lemma_not_ending(s, ".html"@, 1);
    lemma_not_ending(s, ".css"@, 1);
    lemma_not_ending(s, ".js"@, 1);
    lemma_not_ending(s, ".json"@, 1);
    lemma_not_ending(s, ".xml"@, 1);
    lemma_not_ending(s, ".pdf"@, 1);
    lemma_not_ending(s, ".png"@, 2);
    lemma_not_ending(s, ".jpg"@, 2);
}

proof fn lemma_type_gif(n: Seq<char>)
    ensures
        content_type_of(n + ".gif"@) == "image/gif"@,
{
    reveal_strlit(".gif");
    reveal_strlit(".html");
    reveal_strlit(".css");
    reveal_strlit(".js");
    reveal_strlit(".json");
    reveal_strlit(".xml");
    reveal_strlit(".pdf");
    reveal_strlit(".png");
    reveal_strlit(".jpg");
    reveal_strlit(".jpeg");
    let s = n + ".gif"@;
    assert(s.skip(n.len() as int) =~= ".gif"@);
    lemma_not_ending(s, ".html"@, 1);
    lemma_not_ending(s, ".css"@, 1);
    lemma_not_ending(s, ".js"@, 1);
    lemma_not_ending(s, ".json"@, 1);
    lemma_not_ending(s, ".xml"@, 1);
    lemma_not_ending(s, ".pdf"@, 2);
    lemma_not_ending(s, ".png"@, 1);
    lemma_not_ending(s, ".jpg"@, 1);
    lemma_not_ending(s, ".jpeg"@, 1);
}

proof fn lemma_type_svg(n: Seq<char>)
    ensures
        content_type_of(n + ".svg"@) == "image/svg+xml; charset=UTF-8"@,
{
    reveal_strlit(".svg");
    reveal_strlit(".html");
    reveal_strlit(".css");
    reveal_strlit(".js");
    reveal_strlit(".json");
    reveal_strlit(".xml");
    reveal_strlit(".pdf");
    reveal_strlit(".png");
    reveal_strlit(".jpg");
    reveal_strlit(".jpeg");
    reveal_strlit(".gif");
    let s = n + ".svg"@;
    assert(s.skip(n.len() as int) =~= ".svg"@);
    lemma_not_ending(s, ".html"@, 1);
    lemma_not_ending(s, ".css"@, 1);
    lemma_not_ending(s, ".js"@, 1);
    lemma_not_ending(s, ".json"@, 1);
    lemma_not_ending(s, ".xml"@, 1);
    lemma_not_ending(s, ".pdf"@, 1);
    lemma_not_ending(s, ".png"@, 2);
    lemma_not_ending(s, ".jpg"@, 2);
    lemma_not_ending(s, ".jpeg"@, 2);
    lemma_not_ending(s, ".gif"@, 1);
}

proof fn lemma_type_webp(n: Seq<char>)
    ensures
        content_type_of(n + ".webp"@) == "image/webp"@,
{
    reveal_strlit(".webp");
    reveal_strlit(".html");
    reveal_strlit(".css");
    reveal_strlit(".js");
    reveal_strlit(".json");
    reveal_strlit(".xml");
    reveal_strlit(".pdf");
    reveal_strlit(".png");
    reveal_strlit(".jpg");
    reveal_strlit(".jpeg");
    reveal_strlit(".gif");
    reveal_strlit(".svg");
    let s = n + ".webp"@;
    assert(s.skip(n.len() as int) =~= ".webp"@);
    lemma_not_ending(s, ".html"@, 1);
    lemma_not_ending(s, ".css"@, 1);
    lemma_not_ending(s, ".js"@, 1);
    lemma_not_ending(s, ".json"@, 1);
    lemma_not_ending(s, ".xml"@, 1);
    lemma_not_ending(s, ".pdf"@, 1);
    lemma_not_ending(s, ".png"@, 1);
    lemma_not_ending(s, ".jpg"@, 1);
    lemma_not_ending(s, ".jpeg"@, 1);
    lemma_not_ending(s, ".gif"@, 1);
    lemma_not_ending(s, ".svg"@, 1);
}

proof fn lemma_type_ogg(n: Seq<char>)
    ensures
        content_type_of(n + ".ogg"@) == "video/ogg"@,
{
    reveal_strlit(".ogg");
    reveal_strlit(".html");
    reveal_strlit(".css");
    reveal_strlit(".js");
    reveal_strlit(".json");
    reveal_strlit(".xml");
    reveal_strlit(".pdf");
    reveal_strlit(".png");
    reveal_strlit(".jpg");
    reveal_strlit(".jpeg");
    reveal_strlit(".gif");
    reveal_strlit(".svg");
    reveal_strlit(".webp");
    let s = n + ".ogg"@;
    assert(s.skip(n.len() as int) =~= ".ogg"@);
    lemma_not_ending(s, ".html"@, 1);
    lemma_not_ending(s, ".css"@, 1);
    lemma_not_ending(s, ".js"@, 1);
    lemma_not_ending(s, ".json"@, 1);
    lemma_not_ending(s, ".xml"@, 1);
    lemma_not_ending(s, ".pdf"@, 1);
    lemma_not_ending(s, ".png"@, 2);
    lemma_not_ending(s, ".jpg"@, 2);
    lemma_not_ending(s, ".jpeg"@, 2);
    lemma_not_ending(s, ".gif"@, 1);
    lemma_not_ending(s, ".svg"@, 2);
    lemma_not_ending(s, ".webp"@, 1);
}

proof fn lemma_type_mp4(n: Seq<char>)
    ensures
        content_type_of(n + ".mp4"@) == "video/mp4"@,
{
    reveal_strlit(".mp4");
    reveal_strlit(".html");
    reveal_strlit(".css");
    reveal_strlit(".js");
    reveal_strlit(".json");
    reveal_strlit(".xml");
    reveal_strlit(".pdf");
    reveal_strlit(".png");
    reveal_strlit(".jpg");
    reveal_strlit(".jpeg");
    reveal_strlit(".gif");
    reveal_strlit(".svg");
    reveal_strlit(".webp");
    reveal_strlit(".ogg");
    let s = n + ".mp4"@;
    assert(s.skip(n.len() as int) =~= ".mp4"@);
    lemma_not_ending(s, ".html"@, 1);
    lemma_not_ending(s, ".css"@, 1);
    lemma_not_ending(s, ".js"@, 1);
    lemma_not_ending(s, ".json"@, 1);
    lemma_not_ending(s, ".xml"@, 1);
    lemma_not_ending(s, ".pdf"@, 1);
    lemma_not_ending(s, ".png"@, 1);
    lemma_not_ending(s, ".jpg"@, 1);
    lemma_not_ending(s, ".jpeg"@, 1);
    lemma_not_ending(s, ".gif"@, 1);
    lemma_not_ending(s, ".svg"@, 1);
    lemma_not_ending(s, ".webp"@, 1);
    lemma_not_ending(s, ".ogg"@, 1);
}

/// A file is served with the content type of its extension, whatever its
/// name before the extension: `.png` as `image/png`, `.gif` as
/// `image/gif`, `.svg` as `image/svg+xml`, and so on for each known type.
pub proof fn law_content_types(n: Seq<char>)
    ensures
        content_type_of(n + ".html"@) == "text/html; charset=UTF-8"@,
        content_type_of(n + ".css"@) == "text/css; charset=UTF-8"@,
        content_type_of(n + ".js"@) == "text/javascript; charset=UTF-8"@,
        content_type_of(n + ".json"@) == "application/json; charset=UTF-8"@,
        content_type_of(n + ".xml"@) == "application/xml; charset=UTF-8"@,
        content_type_of(n + ".pdf"@) == "application/pdf"@,
        content_type_of(n + ".png"@) == "image/png"@,
        content_type_of(n + ".jpg"@) == "image/jpeg"@,
        content_type_of(n + ".jpeg"@) == "image/jpeg"@,
        content_type_of(n + ".gif"@) == "image/gif"@,
        content_type_of(n + ".svg"@) == "image/svg+xml; charset=UTF-8"@,
        content_type_of(n + ".webp"@) == "image/webp"@,
        content_type_of(n + ".ogg"@) == "video/ogg"@,
        content_type_of(n + ".mp4"@) == "video/mp4"@,
{
    lemma_type_html(n);
    lemma_type_css(n);
    lemma_type_js(n);
    lemma_type_json(n);
    lemma_type_xml(n);
    lemma_type_pdf(n);
    lemma_type_png(n);
    lemma_type_jpg(n);
    lemma_type_jpeg(n);
    lemma_type_gif(n);
    lemma_type_svg(n);
    lemma_type_webp(n);
    lemma_type_ogg(n);
    lemma_type_mp4(n);
}

} // verus!
