use waiter::auth::{
    authorize, check_credentials, credentials_from_decoded, fetch_auth_credentials, payload_of,
    require_authentication, serve_auth_required, ClientCredentials,
};
use waiter::content_encoding::{
    apply, content_is_text, has_content_encoding_header, names_characters, names_text,
};
use waiter::mime::get_mime_type_by_extension;
use waiter::negotiation::{
    accepts_htmd_mime_type, content_type_for, decimal_text, get_cache_time_for_filetype,
    is_static_asset, maybe_correct_content_type, serving_htmd_file, set_additional_headers,
    set_cache_time,
};
use waiter::resolve::{
    candidate_paths, first_hit, keep_regular, request_paths, resolved_file, select, Resolution,
};
use waiter::response::{serve, serve_404, Header, Response};
use waiter::server::{
    handle_get_request, handle_path, handle_put_request, handle_request, serve_file, Action,
    PutStep, UploadBody,
};
use waiter::text::{chars_of, contains, ends_with, join, last_index, lowercase_chars, matches_at, same_text, slice_of};
use waiter::uploads::{
    plan_upload, process_put_request, upload_file, upload_response, write_failure_message, UploadStep,
};

fn credentials(username: &str, password: &str) -> ClientCredentials {
    ClientCredentials { username: username.to_string(), password: password.to_string() }
}

#[test]
fn text_helpers_agree_with_their_meaning() {
    assert!(ends_with("a/b.png", ".png"));
    assert!(!ends_with("a/b.png", ".jpg"));
    assert!(!ends_with("ng", ".png"));
    assert!(ends_with("x", ""));
    assert!(matches_at(&chars_of("text/html"), &chars_of("text/"), 0));
    assert!(matches_at(&chars_of("text/html"), &chars_of("html"), 5));
    assert!(!matches_at(&chars_of("tex"), &chars_of("text/"), 0));
    assert!(!matches_at(&chars_of("text/html"), &chars_of("html"), 6));
    assert_eq!(chars_of("hé!"), vec!['h', 'é', '!']);
    assert_eq!(lowercase_chars("Text/HTML; É"), chars_of("text/html; É"));
    assert_eq!(last_index(&chars_of("/a/b.c"), '/'), Some(2));
    assert_eq!(last_index(&chars_of("abc"), '/'), None);
    assert!(contains("text/html, text/htmd;q=0.9", "text/htmd"));
    assert!(!contains("text/html", "text/htmd"));
    assert!(contains("abc", ""));
    assert!(contains("aab", "ab"));
    assert!(same_text("Basic", "Basic"));
    assert!(!same_text("Basic", "basic"));
    assert!(!same_text("Basic", "Basi"));
    assert_eq!(join("a", "b"), "ab");
    assert_eq!(slice_of("héllo", 1, 3), "él");
}

#[test]
fn mime_registry_knows_the_table_and_defaults() {
    assert_eq!(get_mime_type_by_extension(Some("html")), "text/html");
    assert_eq!(get_mime_type_by_extension(Some("htm")), "text/html");
    assert_eq!(get_mime_type_by_extension(Some("htmd")), "text/htmd");
    assert_eq!(get_mime_type_by_extension(Some("txt")), "text/plain");
    assert_eq!(get_mime_type_by_extension(Some("xml")), "text/xml");
    assert_eq!(get_mime_type_by_extension(Some("css")), "text/css");
    assert_eq!(get_mime_type_by_extension(Some("js")), "application/javascript");
    assert_eq!(get_mime_type_by_extension(Some("json")), "application/json");
    assert_eq!(get_mime_type_by_extension(Some("png")), "image/png");
    assert_eq!(get_mime_type_by_extension(Some("jpg")), "image/jpeg");
    assert_eq!(get_mime_type_by_extension(Some("jpeg")), "image/jpeg");
    assert_eq!(get_mime_type_by_extension(Some("gif")), "image/gif");
    assert_eq!(get_mime_type_by_extension(Some("svg")), "image/svg+xml");
    assert_eq!(get_mime_type_by_extension(Some("ico")), "image/x-icon");
    assert_eq!(get_mime_type_by_extension(Some("woff")), "font/woff");
    assert_eq!(get_mime_type_by_extension(Some("woff2")), "font/woff2");
    assert_eq!(get_mime_type_by_extension(Some("exe")), "application/octet-stream");
    assert_eq!(get_mime_type_by_extension(Some("")), "application/octet-stream");
    assert_eq!(get_mime_type_by_extension(Some("HTML")), "application/octet-stream");
    assert_eq!(get_mime_type_by_extension(None), "application/octet-stream");
}

#[test]
fn candidates_come_in_the_fixed_order() {
    assert_eq!(
        candidate_paths("/srv/x"),
        vec!["/srv/x", "/srv/x.htmd", "/srv/x.txt", "/srv/x.html", "/srv/x.xml"]
    );
}

#[test]
fn first_hit_is_the_least_position() {
    assert_eq!(first_hit(&vec![]), None);
    assert_eq!(first_hit(&vec![None, None, None, None, None]), None);
    assert_eq!(first_hit(&vec![None, None, None, Some("x.html".to_string()), None]), Some(3));
    assert_eq!(
        first_hit(&vec![None, Some("index.htmd".to_string()), None, Some("index.html".to_string()), None]),
        Some(1)
    );
    assert_eq!(first_hit(&vec![Some("x".to_string())]), Some(0));
}

#[test]
fn select_describes_the_first_hit() {
    assert_eq!(select(&vec![None, None, None, None, None]), None);
    let html_only = vec![None, None, None, Some("/srv/x.html".to_string()), None];
    let file = select(&html_only).unwrap();
    assert_eq!(file.absolute_path, "/srv/x.html");
    assert_eq!(file.mime_type, "text/html");
    assert_eq!(file.extension_matched, Some(".html".to_string()));
    let both = vec![
        None,
        Some("/srv/dir/index.htmd".to_string()),
        None,
        Some("/srv/dir/index.html".to_string()),
        None,
    ];
    let file = select(&both).unwrap();
    assert_eq!(file.absolute_path, "/srv/dir/index.htmd");
    assert_eq!(file.mime_type, "text/htmd");
    assert_eq!(file.extension_matched, Some(".htmd".to_string()));
}

#[test]
fn keep_regular_drops_what_is_no_file() {
    assert_eq!(keep_regular(Some("/srv/x".to_string()), true), Some("/srv/x".to_string()));
    assert_eq!(keep_regular(Some("/srv/x".to_string()), false), None);
    assert_eq!(keep_regular(None, true), None);
}

#[test]
fn resolved_file_records_path_type_and_suffix() {
    let file = resolved_file("/srv/doc.htmd", 1);
    assert_eq!(file.absolute_path, "/srv/doc.htmd");
    assert_eq!(file.mime_type, "text/htmd");
    assert_eq!(file.extension_matched, Some(".htmd".to_string()));
    let file = resolved_file("/srv/logo.png", 0);
    assert_eq!(file.mime_type, "image/png");
    assert_eq!(file.extension_matched, None);
    let file = resolved_file("/srv/feed.xml", 4);
    assert_eq!(file.mime_type, "text/xml");
    assert_eq!(file.extension_matched, Some(".xml".to_string()));
    let file = resolved_file("/srv/dir/index", 5);
    assert_eq!(file.extension_matched, None);
    let file = resolved_file("/srv/dir/index.htmd", 6);
    assert_eq!(file.extension_matched, Some(".htmd".to_string()));
    let file = resolved_file("/srv/dir/index.xml", 9);
    assert_eq!(file.extension_matched, Some(".xml".to_string()));
}

#[test]
fn static_assets_are_told_by_their_ending() {
    for name in ["/a.ico", "/a.jpg", "/a.jpeg", "/a.png", "/a.webp", "/a.gif", "/a.svg", "/a.woff", "/a.woff2"] {
        assert!(is_static_asset(name), "{name}");
    }
    for name in ["/a.html", "/a.htmd", "/a.txt", "/", "/png", "/a.png.txt", "/a.PNG", ""] {
        assert!(!is_static_asset(name), "{name}");
    }
}

#[test]
fn cache_time_is_a_year_for_assets_and_half_a_day_for_content() {
    assert_eq!(get_cache_time_for_filetype("/logo.png"), 31536000);
    assert_eq!(get_cache_time_for_filetype("/index.html"), 43200);
    let mut response = serve(200, "");
    set_cache_time(&mut response, "/logo.png");
    assert_eq!(response.get_header("Cache-Control"), Some("max-age=31536000"));
    set_cache_time(&mut response, "/index.html");
    assert_eq!(response.get_header("Cache-Control"), Some("max-age=43200"));
    assert_eq!(response.headers.len(), 1);
}

#[test]
fn decimal_text_writes_numbers() {
    assert_eq!(decimal_text(0), "0");
    assert_eq!(decimal_text(7), "7");
    assert_eq!(decimal_text(10), "10");
    assert_eq!(decimal_text(43200), "43200");
    assert_eq!(decimal_text(31536000), "31536000");
    assert_eq!(decimal_text(u64::MAX), "18446744073709551615");
}

#[test]
fn set_header_replaces_and_appends() {
    let mut response = serve(200, "body");
    assert_eq!(response.get_header("Server"), None);
    response.set_header("Server", "one".to_string());
    response.set_header("Content-Type", "text/plain".to_string());
    response.set_header("Server", "two".to_string());
    assert_eq!(response.get_header("Server"), Some("two"));
    assert_eq!(response.get_header("Content-Type"), Some("text/plain"));
    assert_eq!(response.get_header("server"), None);
    assert_eq!(response.headers.len(), 2);
    assert_eq!(response.status, 200);
    assert_eq!(response.body, b"body".to_vec());
}

#[test]
fn additional_headers_are_fixed() {
    let mut response = serve_404();
    set_additional_headers(&mut response);
    assert_eq!(response.get_header("Server"), Some("dupunkto/waiter (Rust)"));
    assert_eq!(response.get_header("Content-Language"), Some("en-US"));
    assert_eq!(response.status, 404);
}

#[test]
fn htmd_is_downgraded_unless_the_client_accepts_it() {
    let mut response = serve_file(b"# doc".to_vec(), "text/htmd");
    assert_eq!(response.get_header("Content-Type"), Some("text/htmd; charset=UTF-8"));
    assert!(serving_htmd_file(&response));
    maybe_correct_content_type(&mut response, Some("text/htmd"));
    assert_eq!(response.get_header("Content-Type"), Some("text/htmd; charset=UTF-8"));
    maybe_correct_content_type(&mut response, Some("text/html, text/htmd;q=0.8"));
    assert_eq!(response.get_header("Content-Type"), Some("text/htmd; charset=UTF-8"));
    let unchanged = serve_file(b"# doc".to_vec(), "text/htmd");
    assert_eq!(response, unchanged);
    maybe_correct_content_type(&mut response, Some("text/plain"));
    assert_eq!(response.get_header("Content-Type"), Some("text/plain; charset=UTF-8"));
    assert_eq!(response.headers.len(), 1);
    assert_eq!(response.status, 200);
    assert_eq!(response.body, b"# doc".to_vec());

    let mut response = serve_file(b"# doc".to_vec(), "text/htmd");
    maybe_correct_content_type(&mut response, None);
    assert_eq!(response.get_header("Content-Type"), Some("text/plain; charset=UTF-8"));

    let mut response = serve_file(b"<p>".to_vec(), "text/html");
    assert!(!serving_htmd_file(&response));
    maybe_correct_content_type(&mut response, Some("text/plain"));
    assert_eq!(response, serve_file(b"<p>".to_vec(), "text/html"));

    let mut response = serve_404();
    assert!(!serving_htmd_file(&response));
    maybe_correct_content_type(&mut response, None);
    assert_eq!(response.get_header("Content-Type"), None);

    assert!(accepts_htmd_mime_type(Some("text/htmd")));
    assert!(!accepts_htmd_mime_type(Some("*/*")));
    assert!(!accepts_htmd_mime_type(None));
}

#[test]
fn charset_is_added_to_text_types_only() {
    assert_eq!(content_type_for("text/plain"), "text/plain; charset=UTF-8");
    assert_eq!(content_type_for("application/json"), "application/json; charset=UTF-8");
    assert_eq!(content_type_for("image/svg+xml"), "image/svg+xml; charset=UTF-8");
    assert_eq!(content_type_for("image/png"), "image/png");
    assert_eq!(content_type_for("font/woff2"), "font/woff2");
    assert_eq!(content_type_for("application/octet-stream"), "application/octet-stream");
    assert_eq!(content_type_for("text/html; charset=latin1"), "text/html; charset=latin1");
}

#[test]
fn text_content_is_told_by_the_content_type() {
    assert!(names_text("text/html"));
    assert!(names_text("TEXT/HTML"));
    assert!(names_text("application/javascript"));
    assert!(names_text("application/JSON"));
    assert!(names_text("image/svg+xml"));
    assert!(names_text("font/woff2"));
    assert!(!names_characters("font/woff2"));
    assert!(names_characters("Text/Plain"));
    assert!(!names_text("image/png"));
    assert!(!names_text("*/*"));
    let mut response = serve_file(b"{}".to_vec(), "application/json");
    assert!(content_is_text(&response));
    assert!(!has_content_encoding_header(&response));
    let before = response.clone();
    apply(&mut response, Some("gzip, br"));
    assert_eq!(response, before);
    response.set_header("Content-Encoding", "gzip".to_string());
    assert!(has_content_encoding_header(&response));
    let mut response = serve_404();
    assert!(!content_is_text(&response));
    apply(&mut response, None);
    assert_eq!(response, serve_404());
}

#[test]
fn serve_builds_status_and_body() {
    let response = serve(500, "Internal server error; x");
    assert_eq!(response, Response { status: 500, headers: vec![], body: b"Internal server error; x".to_vec() });
    let response = serve_404();
    assert_eq!(response.status, 404);
    assert_eq!(response.body, b"Resource was not found on this server".to_vec());
    assert!(response.headers.is_empty());
}

#[test]
fn get_response_is_the_file_or_not_found() {
    let file = resolved_file("/srv/a.txt", 2);
    let resolution = Resolution::Resolved(file);
    let response = handle_path(&resolution, Some(b"hello".to_vec()));
    assert_eq!(response.status, 200);
    assert_eq!(response.body, b"hello".to_vec());
    assert_eq!(response.get_header("Content-Type"), Some("text/plain; charset=UTF-8"));
    // the file vanished between lookup and read
    let response = handle_path(&resolution, None);
    assert_eq!(response.status, 404);
    let response = handle_path(&Resolution::NotFound, Some(b"x".to_vec()));
    assert_eq!(response.status, 404);
    assert_eq!(response.body, b"Resource was not found on this server".to_vec());
}

#[test]
fn get_answer_carries_all_headers() {
    let document = Resolution::Resolved(resolved_file("/srv/doc.htmd", 1));
    let response = handle_get_request(&document, Some(b"doc".to_vec()), Some("text/html"), Some("gzip, br"));
    assert_eq!(response.status, 200);
    assert_eq!(response.body, b"doc".to_vec());
    assert_eq!(response.get_header("Content-Type"), Some("text/plain; charset=UTF-8"));
    assert_eq!(response.get_header("Cache-Control"), Some("max-age=43200"));
    assert_eq!(response.get_header("Server"), Some("dupunkto/waiter (Rust)"));
    assert_eq!(response.get_header("Content-Language"), Some("en-US"));
    assert_eq!(response.headers.len(), 4);

    let response = handle_get_request(&document, Some(b"doc".to_vec()), Some("text/htmd"), None);
    assert_eq!(response.get_header("Content-Type"), Some("text/htmd; charset=UTF-8"));

    let picture = Resolution::Resolved(resolved_file("/srv/logo.png", 0));
    let response = handle_get_request(&picture, Some(vec![1, 2, 3]), None, None);
    assert_eq!(response.get_header("Content-Type"), Some("image/png"));
    assert_eq!(response.get_header("Cache-Control"), Some("max-age=31536000"));
    assert_eq!(response.headers.len(), 4);

    let response = handle_get_request(&Resolution::NotFound, None, None, None);
    assert_eq!(response.status, 404);
    assert_eq!(response.body, b"Resource was not found on this server".to_vec());
    assert_eq!(response.get_header("Content-Type"), None);
    assert_eq!(response.get_header("Cache-Control"), Some("max-age=43200"));
    assert_eq!(response.headers.len(), 3);
}

#[test]
fn cache_lifetime_goes_by_the_resolved_path() {
    // a request for `/logo.png` that fell back to `logo.png.html` is content
    let page = Resolution::Resolved(resolved_file("/srv/logo.png.html", 3));
    let response = handle_get_request(&page, Some(b"<p>".to_vec()), None, None);
    assert_eq!(response.get_header("Cache-Control"), Some("max-age=43200"));
    // a request for `/logo` that resolved to a picture is an asset
    let picture = Resolution::Resolved(resolved_file("/srv/logo.png", 0));
    let response = handle_get_request(&picture, Some(vec![1]), None, None);
    assert_eq!(response.get_header("Cache-Control"), Some("max-age=31536000"));
    // a picture that could not be read is answered 404, with the short lifetime
    let response = handle_get_request(&picture, None, None, None);
    assert_eq!(response.status, 404);
    assert_eq!(response.get_header("Cache-Control"), Some("max-age=43200"));
}

#[test]
fn set_header_leaves_each_name_once() {
    let twice = |name: &str| Header { name: name.to_string(), value: "old".to_string() };
    let mut response = Response {
        status: 200,
        headers: vec![twice("Cache-Control"), twice("Server"), twice("Cache-Control")],
        body: vec![],
    };
    set_cache_time(&mut response, "/logo.png");
    assert_eq!(
        response.headers,
        vec![
            Header { name: "Server".to_string(), value: "old".to_string() },
            Header { name: "Cache-Control".to_string(), value: "max-age=31536000".to_string() },
        ]
    );
    set_additional_headers(&mut response);
    assert_eq!(response.get_header("Server"), Some("dupunkto/waiter (Rust)"));
    assert_eq!(response.headers.len(), 3);
}

#[test]
fn request_candidates_are_ten_in_order() {
    assert_eq!(
        request_paths("/srv/dir"),
        vec![
            "/srv/dir",
            "/srv/dir.htmd",
            "/srv/dir.txt",
            "/srv/dir.html",
            "/srv/dir.xml",
            "/srv/dir/index",
            "/srv/dir/index.htmd",
            "/srv/dir/index.txt",
            "/srv/dir/index.html",
            "/srv/dir/index.xml",
        ]
    );
}

#[test]
fn requests_are_routed_by_method() {
    assert_eq!(handle_request("GET"), Action::Serve);
    assert_eq!(handle_request("PUT"), Action::Upload);
    match handle_request("POST") {
        Action::Refuse(response) => {
            assert_eq!(response.status, 400);
            assert_eq!(
                response.body,
                b"Bad request; only `GET` and `PUT` requests are supported.".to_vec()
            );
        },
        other => panic!("{other:?}"),
    }
    assert!(matches!(handle_request("get"), Action::Refuse(_)));
    assert!(matches!(handle_request(""), Action::Refuse(_)));
}

#[test]
fn authorization_header_is_parsed() {
    assert_eq!(fetch_auth_credentials(Some("Basic cm9vdDp0b29y")), Some(credentials("root", "toor")));
    assert_eq!(fetch_auth_credentials(Some("Basic dXNlcjpwYTpzcw==")), Some(credentials("user", "pa:ss")));
    assert_eq!(fetch_auth_credentials(Some("Basic Og==")), Some(credentials("", "")));
    assert_eq!(fetch_auth_credentials(None), None);
    assert_eq!(fetch_auth_credentials(Some("")), None);
    assert_eq!(fetch_auth_credentials(Some("Basic")), None);
    assert_eq!(fetch_auth_credentials(Some("Bearer cm9vdDp0b29y")), None);
    assert_eq!(fetch_auth_credentials(Some("basic cm9vdDp0b29y")), None);
    assert_eq!(fetch_auth_credentials(Some("Basic  cm9vdDp0b29y")), None);
    assert_eq!(fetch_auth_credentials(Some("Basic not base64!")), None);
    // "rootonly", no colon
    assert_eq!(fetch_auth_credentials(Some("Basic cm9vdG9ubHk=")), None);
    assert_eq!(payload_of("Basic abc def"), Some("abc def".to_string()));
    assert_eq!(payload_of("Basic "), Some("".to_string()));
    assert_eq!(payload_of("Digest abc"), None);
}

#[test]
fn decoded_credentials_split_at_the_first_colon() {
    assert_eq!(credentials_from_decoded(&b"root:toor".to_vec()), Some(credentials("root", "toor")));
    assert_eq!(credentials_from_decoded(&b"a:b:c".to_vec()), Some(credentials("a", "b:c")));
    assert_eq!(credentials_from_decoded(&b":".to_vec()), Some(credentials("", "")));
    assert_eq!(credentials_from_decoded(&b"root".to_vec()), None);
    assert_eq!(credentials_from_decoded(&vec![]), None);
    assert_eq!(credentials_from_decoded(&vec![0xff, b':', b'a']), None);
    assert_eq!(credentials_from_decoded(&vec![b'a', b':', 0xc3]), None);
    assert_eq!(
        credentials_from_decoded(&vec![0xc3, 0xa9, b':', b'p']),
        Some(credentials("é", "p"))
    );
}

#[test]
fn only_the_configured_user_passes() {
    assert!(check_credentials(&credentials("root", "toor")));
    assert!(!check_credentials(&credentials("root", "root")));
    assert!(!check_credentials(&credentials("toor", "toor")));
    assert!(!check_credentials(&credentials("", "")));
    assert_eq!(authorize(Some(credentials("root", "toor"))), Ok(()));
    assert_eq!(require_authentication(Some("Basic cm9vdDp0b29y")), Ok(()));
}

#[test]
fn missing_credentials_get_a_challenge() {
    let response = require_authentication(None).unwrap_err();
    assert_eq!(response.status, 401);
    assert_eq!(response.get_header("WWW-Authenticate"), Some("Basic realm=\"PUT\""));
    assert_eq!(
        response.body,
        b"Missing credentials; authentication is required for `PUT` requests.".to_vec()
    );
    assert_eq!(serve_auth_required(), response);
    let response = require_authentication(Some("Bearer token")).unwrap_err();
    assert_eq!(response.status, 401);
    assert_eq!(authorize(None).unwrap_err().status, 401);
}

#[test]
fn wrong_credentials_are_forbidden() {
    // root:wrong
    let response = require_authentication(Some("Basic cm9vdDp3cm9uZw==")).unwrap_err();
    assert_eq!(response.status, 403);
    assert_eq!(response.get_header("WWW-Authenticate"), None);
    assert_eq!(
        response.body,
        b"Invalid credentials; authentication is required for `PUT` requests.".to_vec()
    );
}

#[test]
fn upload_plan_follows_the_sandbox() {
    let step = plan_upload(Ok("/srv/new.txt".to_string()), b"hello".to_vec());
    assert_eq!(step, UploadStep::Write { path: "/srv/new.txt".to_string(), bytes: b"hello".to_vec() });
    for error in [waiter::files::SandboxError::Invalid, waiter::files::SandboxError::OutOfScope] {
        match plan_upload(Err(error), b"hello".to_vec()) {
            UploadStep::Respond(response) => {
                assert_eq!(response.status, 403);
                assert_eq!(response.body, b"Forbidden; you cannot upload outside of scope.".to_vec());
            },
            other => panic!("{other:?}"),
        }
    }
}

#[test]
fn empty_upload_is_a_bad_request() {
    let root = waiter::files::ServingRoot::from_canonical("/".to_string()).unwrap();
    for body in [None, Some(vec![])] {
        match process_put_request(&root, "/tmp/x.txt", body) {
            UploadStep::Respond(response) => {
                assert_eq!(response.status, 400);
                assert_eq!(response.body, b"Bad request; empty body, nothing to upload.".to_vec());
            },
            other => panic!("{other:?}"),
        }
    }
}

#[test]
fn put_without_credentials_never_reaches_the_sandbox() {
    let root = waiter::files::ServingRoot::from_canonical("/".to_string()).unwrap();
    for body in [UploadBody::NotRead, UploadBody::Read(Some(b"x".to_vec())), UploadBody::Read(None)] {
        match handle_put_request(&root, None, "/tmp/x.txt", body.clone()) {
            PutStep::Upload(UploadStep::Respond(response)) => {
                assert_eq!(response.status, 401);
                assert_eq!(response.get_header("WWW-Authenticate"), Some("Basic realm=\"PUT\""));
            },
            other => panic!("{other:?}"),
        }
        // root:wrong
        match handle_put_request(&root, Some("Basic cm9vdDp3cm9uZw=="), "/tmp/x.txt", body) {
            PutStep::Upload(UploadStep::Respond(response)) => assert_eq!(response.status, 403),
            other => panic!("{other:?}"),
        }
    }
}

#[test]
fn put_with_credentials_asks_for_the_body_first() {
    let root = waiter::files::ServingRoot::from_canonical("/".to_string()).unwrap();
    let authorization = Some("Basic cm9vdDp0b29y");
    assert_eq!(
        handle_put_request(&root, authorization, "/tmp/x.txt", UploadBody::NotRead),
        PutStep::ReadBody
    );
    for read in [None, Some(vec![])] {
        match handle_put_request(&root, authorization, "/tmp/x.txt", UploadBody::Read(read)) {
            PutStep::Upload(UploadStep::Respond(response)) => assert_eq!(response.status, 400),
            other => panic!("{other:?}"),
        }
    }
}

#[test]
fn write_outcome_becomes_the_answer() {
    assert_eq!(upload_file(Ok(())), Ok(serve(201, "")));
    assert_eq!(upload_file(Err("e".to_string())), Err("e".to_string()));
    assert_eq!(upload_response(Ok(())).status, 201);
    let message = write_failure_message("/srv/new.txt");
    assert_eq!(message, "An unknown error occured while trying to write /srv/new.txt.");
    let response = upload_response(Err(message));
    assert_eq!(response.status, 500);
    assert_eq!(
        response.body,
        b"Internal server error; An unknown error occured while trying to write /srv/new.txt.".to_vec()
    );
}
