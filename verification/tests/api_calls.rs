use myimage::api::{
    api_call_accepted, delete_all_outcome, get_all, get_api_data, page_params_ok, route, ApiAction, Route,
};
use myimage::comm::{file_path_and_url_in, get_file_path_and_url, slash_path, ReqResult};
use myimage::parse::parse_body;
use myimage::upload::{
    decode_image_data, file_uuid, image_data_valid, image_error_message, load_event, needs_resize, picture_record,
    stored_record, thumb_url, upload_record, upload_step, ImageFailure, UploadAction, UploadEvent,
};

fn reply(a: ApiAction) -> ReqResult<Option<String>> {
    match a {
        ApiAction::Reply(r) => r,
        _ => panic!("expected a reply"),
    }
}

#[test]
fn routes_by_method_name() {
    assert_eq!(route("/api/test"), Route::Test);
    assert_eq!(route("/api/getAll"), Route::GetAll);
    assert_eq!(route("/api/upload"), Route::Upload);
    assert_eq!(route("/api/delete"), Route::Delete);
    assert_eq!(route("/api/deleteAll"), Route::DeleteAll);
    assert_eq!(route("/api/api/delete"), Route::Delete);
    assert_eq!(route("/api/other"), Route::NotFound);
    assert_eq!(route("/api/test/"), Route::NotFound);
}

#[test]
fn ping_and_unknown_methods() {
    let r = reply(get_api_data("/api/test", ""));
    assert!(r.success);
    assert_eq!(r.code, 0);
    assert_eq!(r.msg, "ping success");
    assert_eq!(r.data.as_deref(), Some("ping"));
    let r = reply(get_api_data("/api/nothing", "a=1"));
    assert!(!r.success);
    assert_eq!(r.code, -1);
    assert_eq!(r.msg, "找不到方法");
    assert_eq!(r.data.as_deref(), Some("/api/nothing"));
}

#[test]
fn listing_pages() {
    match get_api_data("/api/getAll", "current=3&limit=20") {
        ApiAction::ListPage { start, limit } => assert_eq!((start, limit), (40, 20)),
        _ => panic!("expected a page"),
    }
    match get_api_data("/api/getAll", "") {
        ApiAction::ListPage { start, limit } => assert_eq!((start, limit), (0, 0)),
        _ => panic!("expected a page"),
    }
    assert!(!api_call_accepted("/api/getAll", "current=x"));
    assert!(!api_call_accepted("/api/getAll", "current=9223372036854775807&limit=2"));
    assert!(api_call_accepted("/api/test", "current=x"));
    assert!(!api_call_accepted("/api/test", "a=%ff"));
    let p = parse_body("limit=5");
    assert!(page_params_ok(&p));
    match get_all(&p) {
        ApiAction::ListPage { start, limit } => assert_eq!((start, limit), (0, 5)),
        _ => panic!("expected a page"),
    }
}

#[test]
fn deleting_pictures() {
    match get_api_data("/api/delete", "url=a%2Fb.png") {
        ApiAction::DeleteOne { url } => assert_eq!(url, "a/b.png"),
        _ => panic!("expected a delete"),
    }
    match get_api_data("/api/delete", "") {
        ApiAction::DeleteOne { url } => assert_eq!(url, ""),
        _ => panic!("expected a delete"),
    }
    match get_api_data("/api/deleteAll", "url=[\"a.png\",\"b.png\"]") {
        ApiAction::DeleteMany { urls } => assert_eq!(urls, vec!["a.png".to_string(), "b.png".to_string()]),
        _ => panic!("expected deletes"),
    }
    let r = reply(get_api_data("/api/deleteAll", "url=%20%09"));
    assert!(!r.success);
    assert_eq!(r.msg, "请指定正确的url");
    assert_eq!(r.data.as_deref(), Some(" \t"));
}

#[test]
fn delete_all_answers() {
    let urls = vec!["a".to_string(), "b".to_string(), "c".to_string()];
    let r = delete_all_outcome(urls.clone(), vec![true, true, true]);
    assert!(r.success);
    assert_eq!(r.msg, "删除成功");
    assert_eq!(r.data, urls);
    let r = delete_all_outcome(urls, vec![true, false, false]);
    assert!(!r.success);
    assert_eq!(r.code, -1);
    assert_eq!(r.msg, "删除失败");
    assert_eq!(r.data, vec!["b".to_string(), "c".to_string()]);
}

#[test]
fn upload_plans() {
    match get_api_data("/api/upload", "data=data:image/png;base64,AAAA&name=cat&size=4") {
        ApiAction::Upload(p) => {
            assert_eq!(p.quality, 40);
            assert!(!p.origin_upload);
            assert_eq!(p.file_type, "webp");
            assert_eq!(p.name, "cat");
            assert_eq!(p.size, 4);
            assert!(p.appid.is_none());
            assert_eq!(p.data, "data:image/png;base64,AAAA");
        },
        _ => panic!("expected an upload"),
    }
    match get_api_data("/api/upload", "data=x&quality=100&type=image/jpeg&appid=app1") {
        ApiAction::Upload(p) => {
            assert!(p.origin_upload);
            assert_eq!(p.file_type, "jpeg");
            assert_eq!(p.name, "");
            assert_eq!(p.appid.as_deref(), Some("app1"));
        },
        _ => panic!("expected an upload"),
    }
    match get_api_data("/api/upload", "data=x&quality=9") {
        ApiAction::Upload(p) => {
            assert!(p.origin_upload);
            assert_eq!(p.file_type, "png");
        },
        _ => panic!("expected an upload"),
    }
    match get_api_data("/api/upload", "data=x&quality=150") {
        ApiAction::Upload(p) => {
            assert_eq!(p.quality, 40);
            assert!(!p.origin_upload);
            assert_eq!(p.file_type, "webp");
        },
        _ => panic!("expected an upload"),
    }
    let r = reply(get_api_data("/api/upload", "name=cat"));
    assert!(!r.success);
    assert_eq!(r.msg, "data 参数为空");
    assert!(r.data.is_none());
}

#[test]
fn picture_data_decodes() {
    assert!(image_data_valid("data:image/png;base64,aGVsbG8="));
    assert_eq!(decode_image_data("data:image/png;base64,aGVsbG8="), b"hello".to_vec());
    assert_eq!(decode_image_data(",aGk=\r\n"), b"hi".to_vec());
    assert!(!image_data_valid("aGVsbG8="));
    assert!(!image_data_valid("data:,a"));
    assert!(!image_data_valid("data:,aGk=x"));
    assert!(!image_data_valid("data:,a*b"));
    assert!(image_data_valid("data:,"));
}

#[test]
fn picture_data_bytes_follow_the_digits() {
    assert_eq!(decode_image_data("data:image/png;base64,TWFu"), vec![77, 97, 110]);
    assert_eq!(decode_image_data("data:,TWE="), vec![77, 97]);
    assert_eq!(decode_image_data("data:,TQ=="), vec![77]);
    assert_eq!(decode_image_data("data:,TQ"), vec![77]);
    assert_eq!(decode_image_data("data:,TW\nF\r\nu"), vec![77, 97, 110]);
    assert_eq!(decode_image_data("data:,AAAA"), vec![0, 0, 0]);
    assert_eq!(decode_image_data("data:,+/+/"), vec![251, 255, 191]);
    assert_eq!(decode_image_data("data:,-_-_"), vec![251, 255, 191]);
    assert!(!image_data_valid("a,b,TWFu"));
    assert_eq!(decode_image_data("data:,"), Vec::<u8>::new());
}

#[test]
fn stored_file_names() {
    let u = file_uuid();
    assert_eq!(u.len(), 36);
    for (i, c) in u.chars().enumerate() {
        if [8, 13, 18, 23].contains(&i) {
            assert_eq!(c, '-');
        } else {
            assert!(c.is_ascii_hexdigit() && !c.is_ascii_uppercase());
        }
    }
    assert_ne!(file_uuid(), u);
    let app = "app".to_string();
    let (path, url) = file_path_and_url_in(true, Some(&app), "202401", "abcd1234", "webp");
    assert_eq!(path, "./web/res/pictures/app/thumb/202401/abcd1234.webp");
    assert_eq!(url, path);
    let (path, url) = file_path_and_url_in(false, None, "202401", "abcd1234", "png");
    assert_eq!(path, "./web/res/pictures/202401/abcd1234.png");
    assert_eq!(url, path);
    let (path, url) = get_file_path_and_url(false, None, "id", "png");
    assert!(path.starts_with("./web/res/pictures/"));
    assert!(path.ends_with("/id.png"));
    let ym = &path["./web/res/pictures/".len()..path.len() - "/id.png".len()];
    assert_eq!(ym.len(), 6);
    assert!(ym.chars().all(|c| c.is_ascii_digit()));
    let month: u32 = ym[4..].parse().unwrap();
    assert!((1..=12).contains(&month));
    assert_eq!(url, path);
    assert_eq!(slash_path("C:\\a\\b"), "C:/a/b");
}

#[test]
fn picture_records_and_messages() {
    let d = upload_record("n".into(), "u".into(), "t".into(), 99, 1000, 640, 480);
    assert_eq!((d.time, d.size, d.width, d.height), (99, 1000, 640, 480));
    let d = picture_record("n".into(), "u".into(), "t".into(), 5, 6, 7);
    assert_eq!((d.name.as_str(), d.url.as_str(), d.thumb.as_str()), ("n", "u", "t"));
    assert_eq!((d.size, d.width, d.height), (5, 6, 7));
    assert_eq!(thumb_url(&"u".to_string(), "t".to_string(), true), "u");
    assert_eq!(thumb_url(&"u".to_string(), "t".to_string(), false), "t");
    let p = parse_body("type=image/gif");
    assert_eq!(image_error_message(ImageFailure::Unsupported, &p), "不支持的图片类型: gif");
    assert_eq!(image_error_message(ImageFailure::Unsupported, &parse_body("")), "不支持的图片类型: png");
    assert_eq!(image_error_message(ImageFailure::Limits, &p), "图像大小超过限制");
    assert!(needs_resize(301, 400));
    assert!(!needs_resize(300, 4000));
}

fn refusal(a: UploadAction) -> String {
    match a {
        UploadAction::Refuse(m) => m,
        _ => panic!("expected a refusal"),
    }
}

#[test]
fn upload_steps_in_order() {
    let p = parse_body("type=image/gif");
    assert!(matches!(upload_step(false, UploadEvent::Loaded, &p), UploadAction::Compress));
    assert!(matches!(upload_step(true, UploadEvent::Loaded, &p), UploadAction::Save));
    assert!(matches!(upload_step(false, UploadEvent::Compressed, &p), UploadAction::Save));
    assert!(matches!(upload_step(true, UploadEvent::Saved, &p), UploadAction::MakeThumb));
    assert!(matches!(
        upload_step(true, UploadEvent::ThumbDone { failed: true }, &p),
        UploadAction::Store { thumb_failed: true }
    ));
    assert!(matches!(
        upload_step(false, UploadEvent::ThumbDone { failed: false }, &p),
        UploadAction::Store { thumb_failed: false }
    ));
    assert_eq!(refusal(upload_step(false, UploadEvent::LoadFailed(ImageFailure::Unsupported), &p)), "不支持的图片类型: gif");
    assert_eq!(refusal(upload_step(true, UploadEvent::LoadFailed(ImageFailure::Limits), &p)), "图像大小超过限制");
    assert_eq!(refusal(upload_step(false, UploadEvent::CompressFailed, &p)), "压缩图片失败");
    assert_eq!(refusal(upload_step(false, UploadEvent::SaveFailed, &p)), "保存图片失败");
}

fn png_bytes(width: u32, height: u32) -> Vec<u8> {
    let mut bytes = Vec::new();
    image::DynamicImage::new_rgb8(width, height)
        .write_to(&mut std::io::Cursor::new(&mut bytes), image::ImageFormat::Png)
        .unwrap();
    bytes
}

#[test]
fn reading_uploaded_pictures() {
    let (event, w, h) = load_event(&png_bytes(3, 2));
    assert!(matches!(event, UploadEvent::Loaded));
    assert_eq!((w, h), (3, 2));
    let (event, w, h) = load_event(&png_bytes(640, 1));
    assert!(matches!(event, UploadEvent::Loaded));
    assert_eq!((w, h), (640, 1));
    let (event, w, h) = load_event(&b"hello, not a picture".to_vec());
    assert!(matches!(event, UploadEvent::LoadFailed(ImageFailure::Unsupported)));
    assert_eq!((w, h), (0, 0));
    let mut cut = png_bytes(3, 2);
    cut.truncate(20);
    let (event, w, h) = load_event(&cut);
    assert!(matches!(event, UploadEvent::LoadFailed(_)));
    assert_eq!((w, h), (0, 0));
}

#[test]
fn records_of_stored_uploads() {
    let body = "data=x&name=cat.png&size=7";
    let plan = match get_api_data("/upload", body) {
        ApiAction::Upload(p) => p,
        _ => panic!("expected an upload"),
    };
    let d = stored_record(&plan, "u".into(), "t".into(), false, 1234, 640, 480);
    assert_eq!((d.name.as_str(), d.url.as_str(), d.thumb.as_str()), ("cat.png", "u", "t"));
    assert_eq!((d.size, d.width, d.height), (1234, 640, 480));
    let d = stored_record(&plan, "u".into(), "t".into(), true, 5, 1, 2);
    assert_eq!((d.url.as_str(), d.thumb.as_str()), ("u", "u"));
    assert_eq!((d.size, d.width, d.height), (5, 1, 2));
}
