//! Writing values and lists of values as SQL literals.

use vstd::prelude::*;
use crate::text::{int_string, int_text, join, nat_string, push_char};

verus! {

/// A value that can be written as an SQL literal.
pub trait ToSql {
    /// The literal's text.
    spec fn sql_text(&self) -> Seq<char>;

    fn to_sql(&self) -> (s: String)
        ensures
            s@ == self.sql_text();
}

/// `'text'`, with the text as it stands.
pub open spec fn quoted(t: Seq<char>) -> Seq<char> {
    seq!['\''] + t + seq!['\'']
}

fn quote(t: &str) -> (s: String)
    ensures
        s@ == quoted(t@),
{
    let mut s = String::new();
    push_char(&mut s, '\'');
    s.append(t);
    push_char(&mut s, '\'');
    assert(s@ =~= quoted(t@));
    s
}

impl<'a> ToSql for &'a str {
    open spec fn sql_text(&self) -> Seq<char> {
        quoted((*self)@)
    }

    fn to_sql(&self) -> (s: String) {
        quote(*self)
    }
}

impl ToSql for String {
    open spec fn sql_text(&self) -> Seq<char> {
        quoted(self@)
    }

    fn to_sql(&self) -> (s: String) {
        quote(self.as_str())
    }
}

impl ToSql for isize {
    open spec fn sql_text(&self) -> Seq<char> {
        int_text(*self as int)
    }

    fn to_sql(&self) -> (s: String) {
        int_string(*self as i128)
    }
}

impl ToSql for i128 {
    open spec fn sql_text(&self) -> Seq<char> {
        int_text(*self as int)
    }

    fn to_sql(&self) -> (s: String) {
        int_string(*self)
    }
}

impl ToSql for i64 {
    open spec fn sql_text(&self) -> Seq<char> {
        int_text(*self as int)
    }

    fn to_sql(&self) -> (s: String) {
        int_string(*self as i128)
    }
}

impl ToSql for i32 {
    open spec fn sql_text(&self) -> Seq<char> {
        int_text(*self as int)
    }

    fn to_sql(&self) -> (s: String) {
        int_string(*self as i128)
    }
}

impl ToSql for i16 {
    open spec fn sql_text(&self) -> Seq<char> {
        int_text(*self as int)
    }

    fn to_sql(&self) -> (s: String) {
        int_string(*self as i128)
    }
}

impl ToSql for i8 {
    open spec fn sql_text(&self) -> Seq<char> {
        int_text(*self as int)
    }

    fn to_sql(&self) -> (s: String) {
        int_string(*self as i128)
    }
}

impl ToSql for usize {
    open spec fn sql_text(&self) -> Seq<char> {
        int_text(*self as int)
    }

    fn to_sql(&self) -> (s: String) {
        nat_string(*self as u128)
    }
}

impl ToSql for u128 {
    open spec fn sql_text(&self) -> Seq<char> {
        int_text(*self as int)
    }

    fn to_sql(&self) -> (s: String) {
        nat_string(*self)
    }
}

impl ToSql for u64 {
    open spec fn sql_text(&self) -> Seq<char> {
        int_text(*self as int)
    }

    fn to_sql(&self) -> (s: String) {
        nat_string(*self as u128)
    }
}

impl ToSql for u32 {
    open spec fn sql_text(&self) -> Seq<char> {
        int_text(*self as int)
    }

    fn to_sql(&self) -> (s: String) {
        nat_string(*self as u128)
    }
}

impl ToSql for u16 {
    open spec fn sql_text(&self) -> Seq<char> {
        int_text(*self as int)
    }

    fn to_sql(&self) -> (s: String) {
        nat_string(*self as u128)
    }
}

impl ToSql for u8 {
    open spec fn sql_text(&self) -> Seq<char> {
        int_text(*self as int)
    }

    fn to_sql(&self) -> (s: String) {
        nat_string(*self as u128)
    }
}

impl ToSql for bool {
    open spec fn sql_text(&self) -> Seq<char> {
        if *self { "true"@ } else { "false"@ }
    }

    fn to_sql(&self) -> (s: String) {
        if *self { String::from_str("true") } else { String::from_str("false") }
    }
}

/// `(a,b,c)`: the literals joined by commas, in parentheses.
pub open spec fn list_sql(items: Seq<Seq<char>>) -> Seq<char> {
    seq!['('] + join(items, seq![',']) + seq![')']
}

/// A list that can be written as an SQL value list.
pub trait VecExt<T> {
    spec fn sql_list_text(&self) -> Seq<char>;

    fn to_sql(&self) -> (s: String)
        ensures
            s@ == self.sql_list_text();
}

impl<T: ToSql> VecExt<T> for Vec<T> {
    open spec fn sql_list_text(&self) -> Seq<char> {
        list_sql(self@.map_values(|x: T| x.sql_text()))
    }

    fn to_sql(&self) -> (s: String) {
        let ghost items = self@.map_values(|x: T| x.sql_text());
        let mut s = String::new();
        push_char(&mut s, '(');
        let mut i: usize = 0;
        while i < self.len()
            invariant
                i <= self@.len(),
                items == self@.map_values(|x: T| x.sql_text()),
                s@ == seq!['('] + join(items.take(i as int), seq![',']),
            decreases self@.len() - i,
        {
            let ghost before = items.take(i as int);
            let ghost after = items.take(i + 1);
            assert(after.drop_last() =~= before);
            if i > 0 {
                push_char(&mut s, ',');
            }
            let t = self[i].to_sql();
            s.append(t.as_str());
            i = i + 1;
            assert(s@ =~= seq!['('] + join(after, seq![',']));
        }
        assert(items.take(self@.len() as int) =~= items);
        push_char(&mut s, ')');
        assert(s@ =~= list_sql(items));
        s
    }
}

} // verus!
