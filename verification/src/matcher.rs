//! A small builder for SQL `SELECT` statements over one table.

use vstd::prelude::*;
use crate::text::{chars_eq, chars_of, int_text, int_string, join, join_strings, push_char, string_views};

verus! {

broadcast use vstd::string::group_string_axioms;

/// A comparison in a condition.
#[derive(Debug, Clone, Copy, PartialEq, Eq, Structural)]
pub enum Op {
    Eq,
    NotEq,
    Gt,
    Lt,
    GtEq,
    LtEq,
    In,
    NotIn,
    Like,
    NotLike,
}

impl Op {
    /// The SQL text of the comparison.
    pub open spec fn text(self) -> Seq<char> {
        match self {
            Op::Eq => "="@,
            Op::NotEq => "!="@,
            Op::Gt => ">"@,
            Op::Lt => "<"@,
            Op::GtEq => ">="@,
            Op::LtEq => "<="@,
            Op::In => "in"@,
            Op::NotIn => "not in"@,
            Op::Like => "like"@,
            Op::NotLike => "not like"@,
        }
    }

    pub fn to_string(&self) -> (s: String)
        ensures
            s@ == self.text(),
    {
        match self {
            Op::Eq => String::from_str("="),
            Op::NotEq => String::from_str("!="),
            Op::Gt => String::from_str(">"),
            Op::Lt => String::from_str("<"),
            Op::GtEq => String::from_str(">="),
            Op::LtEq => String::from_str("<="),
            Op::In => String::from_str("in"),
            Op::NotIn => String::from_str("not in"),
            Op::Like => String::from_str("like"),
            Op::NotLike => String::from_str("not like"),
        }
    }
}

impl Default for Op {
    /// Equality is the comparison a condition has when none is given.
    fn default() -> (op: Op)
        ensures
            op == Op::Eq,
    {
        Op::Eq
    }
}

/// A value on the right of a comparison. `Array` holds text that is
/// written as it stands, such as a list made by `VecExt::to_sql`.
pub enum Object {
    Int(isize),
    Bool(bool),
    Null,
    String(String),
    Array(String),
}

impl Object {
    /// The SQL text of the value.
    pub open spec fn text(&self) -> Seq<char> {
        match self {
            Object::Int(v) => int_text(*v as int),
            Object::Bool(b) => if *b { "true"@ } else { "false"@ },
            Object::Null => "null"@,
            Object::String(v) => seq!['\''] + v@ + seq!['\''],
            Object::Array(v) => v@,
        }
    }

    pub fn parse(&self) -> (s: String)
        ensures
            s@ == self.text(),
    {
        match self {
            Object::Int(v) => int_string(*v as i128),
            Object::Bool(b) => if *b { String::from_str("true") } else { String::from_str("false") },
            Object::Null => String::from_str("null"),
            Object::String(v) => {
                let mut s = String::new();
                push_char(&mut s, '\'');
                s.append(v.as_str());
                push_char(&mut s, '\'');
                assert(s@ =~= seq!['\''] + v@ + seq!['\'']);
                s
            },
            Object::Array(v) => String::from_str(v.as_str()),
        }
    }
}

/// What a condition holds, as text.
pub struct CondView {
    pub and: bool,
    pub key: Seq<char>,
    pub op: Op,
    pub value: Seq<char>,
}

struct Cond {
    and: bool,
    key: String,
    op: Op,
    value: String,
}

impl Cond {
    pub closed spec fn view(&self) -> CondView {
        CondView { and: self.and, key: self.key@, op: self.op, value: self.value@ }
    }

    fn new(and: bool, key: &str, op: Op, value: String) -> (c: Self)
        ensures
            c.view() == (CondView { and: and, key: key@, op: op, value: value@ }),
    {
        Cond { and, key: String::from_str(key), op, value }
    }

    /// `key op value`, with `is` / `is not` for a comparison with `null`.
    fn text(&self) -> (s: String)
        ensures
            s@ == cond_text(self.view()),
    {
        let null = chars_of("null");
        let value = chars_of(self.value.as_str());
        let op = if chars_eq(value.as_slice(), null.as_slice()) {
            match self.op {
                Op::Eq => String::from_str("is"),
                Op::NotEq => String::from_str("is not"),
                _ => self.op.to_string(),
            }
        } else {
            self.op.to_string()
        };
        assert(op@ == op_word(self.op, self.value@));
        let mut s = String::from_str(self.key.as_str());
        s.append(" ");
        s.append(op.as_str());
        s.append(" ");
        s.append(self.value.as_str());
        s
    }
}

impl Default for Cond {
    fn default() -> (c: Cond)
        ensures
            c.view() == (CondView { and: false, key: Seq::<char>::empty(), op: Op::Eq, value: Seq::<char>::empty() }),
    {
        Cond { and: false, key: String::new(), op: Op::Eq, value: String::new() }
    }
}

/// The comparison word of a condition: `= null` is written `is null` and
/// `!= null` is written `is not null`.
pub open spec fn op_word(op: Op, value: Seq<char>) -> Seq<char> {
    if value == "null"@ {
        match op {
            Op::Eq => "is"@,
            Op::NotEq => "is not"@,
            _ => op.text(),
        }
    } else {
        op.text()
    }
}

/// `key op value`.
pub open spec fn cond_text(c: CondView) -> Seq<char> {
    c.key + " "@ + op_word(c.op, c.value) + " "@ + c.value
}

/// The conditions in order, each after the first preceded by ` and ` or
/// ` or ` as it was added.
pub open spec fn clauses(conds: Seq<CondView>) -> Seq<char>
    decreases conds.len(),
{
    if conds.len() == 0 {
        Seq::<char>::empty()
    } else {
        let prev = clauses(conds.drop_last());
        if prev.len() > 0 {
            prev + (if conds.last().and { " and "@ } else { " or "@ }) + cond_text(conds.last())
        } else {
            cond_text(conds.last())
        }
    }
}

/// The `where` part: the clauses, led by ` where ` when asked for and
/// there is at least one condition.
pub open spec fn where_text(conds: Seq<CondView>, with_where: bool) -> Seq<char> {
    if with_where && conds.len() > 0 {
        " where "@ + clauses(conds)
    } else {
        clauses(conds)
    }
}

/// The settings of a `Matcher`.
pub struct MatcherView {
    pub table: Seq<char>,
    pub fields: Seq<Seq<char>>,
    pub count_field: Seq<char>,
    pub conds: Seq<CondView>,
    pub limit: Option<isize>,
    pub offset: Option<isize>,
    pub order_by: Option<Seq<char>>,
    pub order_desc: bool,
    pub group_by: Option<Seq<char>>,
}

impl MatcherView {
    /// Nothing set: no table, fields, conditions, page, order or group.
    pub open spec fn empty() -> MatcherView {
        MatcherView {
            table: Seq::<char>::empty(),
            fields: Seq::<Seq<char>>::empty(),
            count_field: Seq::<char>::empty(),
            conds: Seq::<CondView>::empty(),
            limit: None,
            offset: None,
            order_by: None,
            order_desc: false,
            group_by: None,
        }
    }
}

/// What `build` gives: the `SELECT` statement when a table is set;
/// without one, the text of the last condition added, or nothing when
/// there is no condition.
pub open spec fn build_text(m: MatcherView) -> Seq<char> {
    if m.table.len() > 0 {
        select_text(m)
    } else if m.conds.len() > 0 {
        cond_text(m.conds.last())
    } else {
        Seq::<char>::empty()
    }
}

/// The `SELECT` statement of a matcher.
pub open spec fn select_text(m: MatcherView) -> Seq<char> {
    "SELECT "@ + (if m.fields.len() == 0 { "*"@ } else { join(m.fields, ", "@) }) + " FROM "@
        + m.table + where_text(m.conds, true) + group_text(m) + order_text(m) + page_text(m)
}

pub open spec fn group_text(m: MatcherView) -> Seq<char> {
    match m.group_by {
        Some(g) => " group by "@ + g,
        None => Seq::<char>::empty(),
    }
}

/// ` order by <field> desc`, or ` order by <field> ` (with the space) when
/// ascending.
pub open spec fn order_text(m: MatcherView) -> Seq<char> {
    match m.order_by {
        Some(o) => " order by "@ + o + " "@ + (if m.order_desc { "desc"@ } else { Seq::<char>::empty() }),
        None => Seq::<char>::empty(),
    }
}

/// ` limit L offset O`, written only when both are set, `L > 0` and `O >= 0`.
pub open spec fn page_text(m: MatcherView) -> Seq<char> {
    match (m.limit, m.offset) {
        (Some(l), Some(o)) => if l > 0 && o >= 0 {
            " limit "@ + int_text(l as int) + " offset "@ + int_text(o as int)
        } else {
            Seq::<char>::empty()
        },
        _ => Seq::<char>::empty(),
    }
}

/// The `SELECT COUNT(*)` statement of a matcher.
pub open spec fn count_text(m: MatcherView) -> Seq<char> {
    "SELECT COUNT(*)"@ + (if m.count_field.len() == 0 { Seq::<char>::empty() } else { " as "@ + m.count_field })
        + " FROM "@ + m.table + where_text(m.conds, true)
}

pub struct Matcher {
    table: String,
    fields: Vec<String>,
    count_field: String,
    cond_list: Vec<Cond>,
    limit: Option<isize>,
    offset: Option<isize>,
    order_by: Option<String>,
    order_desc: bool,
    group_by: Option<String>,
}

spec fn opt_view(o: Option<String>) -> Option<Seq<char>> {
    match o {
        Some(s) => Some(s@),
        None => None,
    }
}

impl View for Matcher {
    type V = MatcherView;

    closed spec fn view(&self) -> MatcherView {
        MatcherView {
            table: self.table@,
            fields: self.fields@.map_values(|f: String| f@),
            count_field: self.count_field@,
            conds: self.cond_list@.map_values(|c: Cond| c.view()),
            limit: self.limit,
            offset: self.offset,
            order_by: opt_view(self.order_by),
            order_desc: self.order_desc,
            group_by: opt_view(self.group_by),
        }
    }
}

impl Default for Matcher {
    /// The same as `Matcher::new()`.
    fn default() -> (m: Matcher)
        ensures
            m@ == MatcherView::empty(),
    {
        Matcher::new()
    }
}

impl Matcher {
    /// A matcher with nothing set.
    pub fn new() -> (m: Self)
        ensures
            m@ == MatcherView::empty(),
    {
        let m = Matcher {
            table: String::new(),
            fields: Vec::new(),
            count_field: String::new(),
            cond_list: Vec::new(),
            limit: None,
            offset: None,
            order_by: None,
            order_desc: false,
            group_by: None,
        };
        assert(m@.fields =~= Seq::<Seq<char>>::empty());
        assert(m@.conds =~= Seq::<CondView>::empty());
        m
    }

    pub fn table(&mut self, table: &str) -> (r: &mut Self)
        ensures
            r@ == (MatcherView { table: table@, ..old(self)@ }),
            final(self)@ == final(r)@,
    {
        self.table = String::from_str(table);
        self
    }

    pub fn fields(&mut self, fields: &[&str]) -> (r: &mut Self)
        ensures
            r@ == (MatcherView { fields: fields@.map_values(|f: &str| f@), ..old(self)@ }),
            final(self)@ == final(r)@,
    {
        let mut v: Vec<String> = Vec::new();
        let mut i: usize = 0;
        while i < fields.len()
            invariant
                i <= fields@.len(),
                v@.len() == i,
                forall|k: int| 0 <= k < i ==> #[trigger] v@[k]@ == fields@[k]@,
            decreases fields@.len() - i,
        {
            v.push(String::from_str(fields[i]));
            i = i + 1;
        }
        self.fields = v;
        assert(self@.fields =~= fields@.map_values(|f: &str| f@));
        self
    }

    pub fn count_field(&mut self, count_field: &str) -> (r: &mut Self)
        ensures
            r@ == (MatcherView { count_field: count_field@, ..old(self)@ }),
            final(self)@ == final(r)@,
    {
        self.count_field = String::from_str(count_field);
        self
    }

    pub fn group_by(&mut self, group_by: &str) -> (r: &mut Self)
        ensures
            r@ == (MatcherView { group_by: Some(group_by@), ..old(self)@ }),
            final(self)@ == final(r)@,
    {
        self.group_by = Some(String::from_str(group_by));
        self
    }

    pub fn limit(&mut self, limit: isize) -> (r: &mut Self)
        ensures
            r@ == (MatcherView { limit: Some(limit), ..old(self)@ }),
            final(self)@ == final(r)@,
    {
        self.limit = Some(limit);
        self
    }

    pub fn offset(&mut self, offset: isize) -> (r: &mut Self)
        ensures
            r@ == (MatcherView { offset: Some(offset), ..old(self)@ }),
            final(self)@ == final(r)@,
    {
        self.offset = Some(offset);
        self
    }

    pub fn order_by(&mut self, order_by: &str, order_desc: bool) -> (r: &mut Self)
        ensures
            r@ == (MatcherView { order_by: Some(order_by@), order_desc: order_desc, ..old(self)@ }),
            final(self)@ == final(r)@,
    {
        self.order_by = Some(String::from_str(order_by));
        self.order_desc = order_desc;
        self
    }

    /// Adds a condition joined to the previous ones by `and`.
    pub fn and(&mut self, key: &str, op: Op, value: Object) -> (r: &mut Self)
        ensures
            r@ == (MatcherView {
                conds: old(self)@.conds.push(CondView { and: true, key: key@, op: op, value: value.text() }),
                ..old(self)@
            }),
            final(self)@ == final(r)@,
    {
        let c = Cond::new(true, key, op, value.parse());
        self.cond_list.push(c);
        assert(self@.conds =~= old(self)@.conds.push(c.view()));
        self
    }

    /// Adds a condition joined to the previous ones by `or`.
    pub fn or(&mut self, key: &str, op: Op, value: Object) -> (r: &mut Self)
        ensures
            r@ == (MatcherView {
                conds: old(self)@.conds.push(CondView { and: false, key: key@, op: op, value: value.text() }),
                ..old(self)@
            }),
            final(self)@ == final(r)@,
    {
        let c = Cond::new(false, key, op, value.parse());
        self.cond_list.push(c);
        assert(self@.conds =~= old(self)@.conds.push(c.view()));
        self
    }

    /// The conditions as SQL, led by ` where ` when `with_where` is set
    /// and there is a condition.
    pub fn build_where(&self, with_where: bool) -> (s: String)
        ensures
            s@ == where_text(self@.conds, with_where),
    {
        let ghost conds = self@.conds;
        let mut s = String::new();
        let mut i: usize = 0;
        while i < self.cond_list.len()
            invariant
                i <= self.cond_list@.len(),
                conds == self@.conds,
                conds.len() == self.cond_list@.len(),
                s@ == clauses(conds.take(i as int)),
            decreases self.cond_list@.len() - i,
        {
            let cond = &self.cond_list[i];
            let ghost prev = conds.take(i as int);
            let ghost next = conds.take(i + 1);
            assert(next.drop_last() =~= prev);
            assert(next.last() == cond.view());
            proof { lemma_clauses_nonempty(prev); }
            if i > 0 {
                if cond.and {
                    s.append(" and ");
                } else {
                    s.append(" or ");
                }
            }
            let t = cond.text();
            s.append(t.as_str());
            i = i + 1;
            assert(s@ =~= clauses(next));
        }
        assert(conds.take(i as int) =~= conds);
        if with_where && self.cond_list.len() > 0 {
            let mut w = String::from_str(" where ");
            w.append(s.as_str());
            w
        } else {
            s
        }
    }
}

impl Matcher {
    /// The `SELECT` statement: fields (or `*`), table, conditions, then the
    /// group, order and page parts that are set. A matcher without a table
    /// gives the text of its last condition alone (nothing when it has none).
    #[verifier::rlimit(40)]
    pub fn build(&self) -> (s: String)
        ensures
            s@ == build_text(self@),
    {
        if self.table.as_str().is_empty() {
            let n = self.cond_list.len();
            if n == 0 {
                return String::new();
            }
            let t = self.cond_list[n - 1].text();
            assert(self@.conds.last() == self.cond_list@[n - 1].view());
            return t;
        }
        let mut s = String::from_str("SELECT ");
        if self.fields.len() == 0 {
            s.append("*");
        } else {
            let f = join_strings(&self.fields, ", ");
            assert(string_views(self.fields@) == self@.fields);
            s.append(f.as_str());
        }
        s.append(" FROM ");
        s.append(self.table.as_str());
        let w = self.build_where(true);
        s.append(w.as_str());
        let ghost head = s@;
        match &self.group_by {
            Some(g) => {
                s.append(" group by ");
                s.append(g.as_str());
            },
            None => {},
        }
        assert(s@ =~= head + group_text(self@));
        let ghost head = s@;
        match &self.order_by {
            Some(o) => {
                s.append(" order by ");
                s.append(o.as_str());
                s.append(" ");
                if self.order_desc {
                    s.append("desc");
                }
            },
            None => {},
        }
        assert(s@ =~= head + order_text(self@));
        let ghost head = s@;
        match (self.limit, self.offset) {
            (Some(l), Some(o)) => {
                if l > 0 && o >= 0 {
                    s.append(" limit ");
                    let lt = int_string(l as i128);
                    s.append(lt.as_str());
                    s.append(" offset ");
                    let ot = int_string(o as i128);
                    s.append(ot.as_str());
                }
            },
            _ => {},
        }
        assert(s@ =~= head + page_text(self@));
        s
    }

    /// The `SELECT COUNT(*)` statement, named by the count field when it is
    /// set. The table must be set.
    pub fn build_count(&self) -> (s: String)
        requires
            self@.table.len() > 0,
        ensures
            s@ == count_text(self@),
    {
        let mut s = String::from_str("SELECT COUNT(*)");
        if !self.count_field.as_str().is_empty() {
            s.append(" as ");
            s.append(self.count_field.as_str());
        }
        s.append(" FROM ");
        s.append(self.table.as_str());
        let w = self.build_where(true);
        s.append(w.as_str());
        s
    }
}

/// Clauses of at least one condition are never empty.
pub proof fn lemma_clauses_nonempty(conds: Seq<CondView>)
    ensures
        clauses(conds).len() > 0 <==> conds.len() > 0,
{
    reveal_strlit(" ");
    if conds.len() > 0 {
        assert(cond_text(conds.last()).len() > 0);
    }
}

} // verus!
