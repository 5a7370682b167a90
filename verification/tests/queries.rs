use myimage::ext::{ToSql, VecExt};
use myimage::matcher::{Matcher, Object, Op};
use myimage::service::{
    del_outcome, delete_files, delete_sql, delete_step, delete_target, first_found, fmt_result, insert_sql, list_queries, page_matcher,
    proc_result, removal_failure, select_by_url_sql, turn_values, Data, DeleteAction, DeleteEvent,
};
use myimage::text::{int_string, nat_string, parse_i64};

#[test]
fn test_matcher() {
    let sql = Matcher::new()
        .and("url", Op::Eq, Object::String("123456".into()))
        .build();
    assert_eq!(sql, "url = '123456'");

    let sql = Matcher::new()
        .and("url", Op::Eq, Object::String("123456".into()))
        .and("time", Op::Eq, Object::Null)
        .build();
    assert_eq!(sql, "time is null");

    let mut list = Vec::new();
    list.push(1);
    list.push(2);
    list.push(3);
    let sql = list.to_sql();
    assert_eq!(sql, "(1,2,3)");

    let mut list = Vec::new();
    list.push(true);
    list.push(false);
    list.push(true);
    let sql = list.to_sql();
    assert_eq!(sql, "(true,false,true)");

    let mut list = Vec::new();
    list.push("a");
    list.push("b");
    list.push("c");
    let sql = list.to_sql();
    assert_eq!(sql, "('a','b','c')");

    let sql = Matcher::new()
        .and("url", Op::In, Object::Array(sql))
        .build();
    assert_eq!(sql, "url in ('a','b','c')");
}

#[test]
fn matcher_defaults() {
    assert_eq!(Op::default(), Op::Eq);
    assert_eq!(Matcher::default().build(), "");
    assert_eq!(Matcher::new().build(), "");
    let mut m = Matcher::default();
    m.table("picture");
    assert_eq!(m.build(), "SELECT * FROM picture");
    let mut m = Matcher::new();
    m.fields(&["url"]).order_by("time", true).or("size", Op::NotEq, Object::Null);
    assert_eq!(m.build(), "size is not null");
}

#[test]
fn listing_page_queries() {
    let mut m = page_matcher(20, 10);
    let (sql, count) = list_queries(&mut m);
    assert_eq!(sql, "SELECT * FROM picture limit 10 offset 20");
    assert_eq!(count, "SELECT COUNT(*) FROM picture");
    let mut m = page_matcher(0, 0);
    let (sql, _) = list_queries(&mut m);
    assert_eq!(sql, "SELECT * FROM picture");
}

#[test]
fn matcher_where_clauses() {
    let mut m = Matcher::new();
    m.and("url", Op::Eq, Object::String("123456".into()));
    assert_eq!(m.build_where(false), "url = '123456'");
    assert_eq!(m.build_where(true), " where url = '123456'");
    m.and("time", Op::Eq, Object::Null);
    assert_eq!(m.build_where(false), "url = '123456' and time is null");
    m.or("size", Op::NotEq, Object::Null);
    assert_eq!(m.build_where(false), "url = '123456' and time is null or size is not null");
    m.and("w", Op::GtEq, Object::Int(-3));
    m.and("ok", Op::Like, Object::Bool(true));
    assert_eq!(
        m.build_where(false),
        "url = '123456' and time is null or size is not null and w >= -3 and ok like true"
    );
    assert_eq!(Matcher::new().build_where(true), "");
}

#[test]
fn value_lists_as_sql() {
    let list = vec![1, 2, 3];
    assert_eq!(list.to_sql(), "(1,2,3)");
    let list = vec![true, false, true];
    assert_eq!(list.to_sql(), "(true,false,true)");
    let list = vec!["a", "b", "c"];
    let sql = list.to_sql();
    assert_eq!(sql, "('a','b','c')");
    let empty: Vec<u8> = Vec::new();
    assert_eq!(empty.to_sql(), "()");
    assert_eq!(ToSql::to_sql(&i128::MIN), "-170141183460469231731687303715884105728");
    assert_eq!(ToSql::to_sql(&u64::MAX), "18446744073709551615");
    let sql2 = Matcher::new().table("picture").and("url", Op::In, Object::Array(sql)).build();
    assert_eq!(sql2, "SELECT * FROM picture where url in ('a','b','c')");
}

#[test]
fn select_and_count_statements() {
    let mut m = Matcher::new();
    m.table("picture").fields(&["name", "url"]).order_by("time", true).limit(10).offset(20);
    assert_eq!(m.build(), "SELECT name, url FROM picture order by time desc limit 10 offset 20");
    m.group_by("name");
    m.order_by("time", false);
    assert_eq!(m.build(), "SELECT name, url FROM picture group by name order by time  limit 10 offset 20");
    m.limit(0);
    assert_eq!(m.build(), "SELECT name, url FROM picture group by name order by time ");
    m.limit(5).offset(-1);
    assert_eq!(m.build(), "SELECT name, url FROM picture group by name order by time ");
    assert_eq!(m.build_count(), "SELECT COUNT(*) FROM picture");
    m.count_field("total").and("size", Op::Gt, Object::Int(0));
    assert_eq!(m.build_count(), "SELECT COUNT(*) as total FROM picture where size > 0");
}

#[test]
fn listing_queries_target_pictures() {
    let mut m = Matcher::new();
    m.limit(3).offset(0).and("name", Op::Like, Object::String("%cat%".into()));
    let (sql, count) = list_queries(&mut m);
    assert_eq!(sql, "SELECT * FROM picture where name like '%cat%' limit 3 offset 0");
    assert_eq!(count, "SELECT COUNT(*) FROM picture where name like '%cat%'");
}

#[test]
fn placeholders_match_fields() {
    assert_eq!(turn_values("name,url,thumb".to_string()), "?1,?2,?3");
    assert_eq!(turn_values("a".to_string()), "?1");
    assert_eq!(turn_values("".to_string()), "?1");
    assert_eq!(turn_values("a,b,c,d,e,f,g,h,i,j,k".to_string()).split(',').count(), 11);
    assert_eq!(
        insert_sql(),
        "INSERT INTO picture (name,url,thumb,time,size,width,height) VALUES (?1,?2,?3,?4,?5,?6,?7)"
    );
    assert_eq!(select_by_url_sql(true), "SELECT * FROM picture where thumb = ?1");
    assert_eq!(delete_sql(false), "DELETE FROM picture WHERE url = ?1");
}

#[test]
fn statement_results() {
    let (ok, msg, code, rows) = fmt_result(Ok(3));
    assert!(ok);
    assert_eq!(msg, "成功");
    assert_eq!((code, rows), (0, 3));
    let (ok, msg, code, rows) = fmt_result(Err("locked".to_string()));
    assert!(!ok);
    assert_eq!(msg, "locked");
    assert_eq!((code, rows), (-1, 0));
    assert_eq!(del_outcome(fmt_result(Ok(12))).unwrap(), "删除成功, 行数=12");
    assert_eq!(del_outcome(fmt_result(Err("no".to_string()))).unwrap_err(), "no");

    let r = proc_result(Ok(5));
    assert!(r.success && r.code == 0 && r.msg == "success" && r.data == Some(5));
    let r = proc_result::<i32>(Err("boom".to_string()));
    assert!(!r.success && r.code == -1 && r.msg == "boom" && r.data.is_none());
}

#[test]
fn deleting_one_picture() {
    assert_eq!(delete_target("").unwrap_err(), "url不能为空");
    assert_eq!(delete_target("./web/res/pictures/thumb/202401/ab.webp").unwrap(), true);
    assert_eq!(delete_target("./web/res/pictures/202401/ab.webp").unwrap(), false);
    assert_eq!(delete_files(None).unwrap_err(), "找不到需要删除的图片");
    let d = Data {
        name: "n".into(),
        url: "u".into(),
        thumb: "t".into(),
        time: 1,
        size: 2,
        width: 3,
        height: 4,
    };
    assert_eq!(delete_files(Some(d)).unwrap(), ("t".to_string(), "u".to_string()));
    assert_eq!(removal_failure(true), "删除缩略图失败");
    assert_eq!(removal_failure(false), "删除图片失败");
    assert_eq!(first_found(vec![None, Some(2), Some(3)]), Some(2));
    assert_eq!(first_found::<i32>(vec![None, None]), None);
}

fn failure(a: DeleteAction) -> String {
    match a {
        DeleteAction::Fail(m) => m,
        _ => panic!("expected a failure"),
    }
}

#[test]
fn delete_steps_in_order() {
    let thumb_url = "./web/res/pictures/thumb/202401/ab.webp";
    assert_eq!(failure(delete_step("", DeleteEvent::Start)), "url不能为空");
    assert!(matches!(delete_step(thumb_url, DeleteEvent::Start), DeleteAction::Lookup { is_thumb: true }));
    assert!(matches!(delete_step("u", DeleteEvent::Start), DeleteAction::Lookup { is_thumb: false }));
    assert_eq!(failure(delete_step("u", DeleteEvent::Looked(None))), "找不到需要删除的图片");
    let d = Data { name: "n".into(), url: "u".into(), thumb: "t".into(), time: 1, size: 2, width: 3, height: 4 };
    match delete_step("u", DeleteEvent::Looked(Some(d))) {
        DeleteAction::RemoveThumb { thumb, picture } => assert_eq!((thumb.as_str(), picture.as_str()), ("t", "u")),
        _ => panic!("expected the thumbnail's removal"),
    }
    match delete_step("u", DeleteEvent::ThumbRemoved { ok: true, picture: "u".into() }) {
        DeleteAction::RemovePicture { picture } => assert_eq!(picture, "u"),
        _ => panic!("expected the picture's removal"),
    }
    assert_eq!(failure(delete_step("u", DeleteEvent::ThumbRemoved { ok: false, picture: "u".into() })), "删除缩略图失败");
    assert_eq!(failure(delete_step("u", DeleteEvent::PictureRemoved { ok: false })), "删除图片失败");
    assert!(matches!(delete_step(thumb_url, DeleteEvent::PictureRemoved { ok: true }), DeleteAction::DropRecord { is_thumb: true }));
    assert!(matches!(delete_step("u", DeleteEvent::PictureRemoved { ok: true }), DeleteAction::DropRecord { is_thumb: false }));
}

#[test]
fn numbers_read_back_as_written() {
    for n in [0i64, 7, -7, 10, 1234567890, i64::MAX, i64::MIN] {
        let t = int_string(n as i128);
        assert_eq!(t, n.to_string());
        assert_eq!(parse_i64(&t), Some(n));
    }
    assert_eq!(nat_string(0), "0");
    assert_eq!(parse_i64("+"), None);
    assert_eq!(parse_i64("-"), None);
    assert_eq!(parse_i64(""), None);
    assert_eq!(parse_i64("1 "), None);
    assert_eq!(parse_i64("9223372036854775808"), None);
    assert_eq!(parse_i64("-9223372036854775808"), Some(i64::MIN));
    assert_eq!(parse_i64("007"), Some(7));
}
