use midware::http::{Method, Request, Response};
use midware::paths::{contain, url_to_file_path};
use midware::pipeline::Outcome;
use midware::static_file::{FileProbe, StaticFile};

fn static_request(method: Method, path: &str) -> Request {
    Request {
        method,
        path: path.to_string(),
        headers: vec![],
    }
}

#[test]
fn resolver_maps_trailing_slash_to_index_file() {
    let resolved = url_to_file_path(&"/docs/".to_string()).expect("a plain path must resolve");
    assert!(resolved.ends_with("docs/index.html"));
    assert_eq!(resolved, "/docs/index.html");
}

#[test]
fn resolver_maps_bare_and_empty_targets_to_root_index() {
    assert_eq!(
        url_to_file_path(&"/".to_string()),
        Some("/index.html".to_string())
    );
    assert_eq!(
        url_to_file_path(&"".to_string()),
        Some("/index.html".to_string())
    );
}

#[test]
fn resolver_ignores_query_suffix() {
    let resolved = url_to_file_path(&"/a/b.txt?page=2".to_string()).expect("must resolve");
    assert_eq!(resolved, "/a/b.txt");
}

#[test]
fn resolver_removes_dot_segments() {
    let resolved = url_to_file_path(&"/public/../secret.txt".to_string()).expect("must resolve");
    assert_eq!(resolved, "/secret.txt");
}

#[test]
fn guard_joins_in_root_path_onto_fs_root() {
    let out = contain(
        &"/public/a.txt".to_string(),
        &"/public".to_string(),
        &"./www".to_string(),
    );
    assert_eq!(out, Some("./www/a.txt".to_string()));
}

#[test]
fn guard_refuses_traversal_and_degenerate_remainders() {
    let url_root = "/public".to_string();
    let fs_root = "./www".to_string();
    for resolved in [
        "/public/../etc/passwd",
        "/public/..",
        "/public/./a",
        "/public/.",
        "/public//a",
        "/public/a/",
        "/public/",
        "/public",
        "/publicity/a.txt",
        "/other/a.txt",
    ] {
        assert_eq!(contain(&resolved.to_string(), &url_root, &fs_root), None);
    }
}

#[test]
fn guard_allows_names_that_merely_start_with_dots() {
    let url_root = "/public".to_string();
    let fs_root = "./www".to_string();
    assert_eq!(
        contain(&"/public/..data".to_string(), &url_root, &fs_root),
        Some("./www/..data".to_string())
    );
    assert_eq!(
        contain(&"/public/.well-known/x".to_string(), &url_root, &fs_root),
        Some("./www/.well-known/x".to_string())
    );
}

#[test]
fn handler_computes_target_for_get_and_head() {
    let sf = StaticFile::new("/public".to_string(), "./public".to_string());
    let get = static_request(Method::Get, "/public/readme.txt");
    assert_eq!(sf.target(&get), Some("./public/readme.txt".to_string()));
    let head = static_request(Method::Head, "/public/readme.txt");
    assert_eq!(sf.target(&head), Some("./public/readme.txt".to_string()));
}

#[test]
fn handler_has_no_target_for_other_methods_or_prefixes() {
    let sf = StaticFile::new("/public".to_string(), "./public".to_string());
    let post = static_request(Method::Other, "/public/readme.txt");
    assert_eq!(sf.target(&post), None);
    let elsewhere = static_request(Method::Get, "/other/readme.txt");
    assert_eq!(sf.target(&elsewhere), None);
}

#[test]
fn handler_has_no_target_for_encoded_traversal() {
    let sf = StaticFile::new("/public".to_string(), "./public".to_string());
    for path in [
        "/public/%2e%2e/secret",
        "/public/%2E%2E/secret",
        "/public/.%2e/secret",
        "/public/../secret",
    ] {
        let req = static_request(Method::Get, path);
        assert_eq!(sf.target(&req), None, "path {} must have no target", path);
    }
}

#[test]
fn handler_treats_undecoded_dot_names_as_plain_files() {
    let sf = StaticFile::new("/public".to_string(), "./public".to_string());
    let req = static_request(Method::Get, "/public/..%2fsecret");
    assert_eq!(sf.target(&req), Some("./public/..%2fsecret".to_string()));
    let rooted = static_request(Method::Get, "/../public/a.txt");
    assert_eq!(sf.target(&rooted), Some("./public/a.txt".to_string()));
}

#[test]
fn handler_serves_found_file_and_terminates() {
    let sf = StaticFile::new("/public".to_string(), "./public".to_string());
    let req = static_request(Method::Get, "/public/readme.txt");
    assert_eq!(sf.target(&req), Some("./public/readme.txt".to_string()));
    let on_disk = b"hello from readme".to_vec();
    let streamed = Response::new().send_file(on_disk.clone());
    assert!(streamed.committed());
    assert_eq!(streamed.body_bytes(), &on_disk);
    let out = sf.serve_file(
        req,
        Response::new(),
        vec!["Context".to_string()],
        FileProbe::Found(on_disk),
    );
    assert!(matches!(out, Outcome::Terminate));
}

#[test]
fn handler_passes_missing_file_through_unchanged() {
    let sf = StaticFile::new("/public".to_string(), "./public".to_string());
    let req = static_request(Method::Get, "/public/not-here.txt");
    assert!(sf.target(&req).is_some());
    let out = sf.serve_file(req, Response::new(), vec!["Context".to_string()], FileProbe::Absent);
    match out {
        Outcome::Continue(req, res, ctx) => {
            assert_eq!(req.path, "/public/not-here.txt");
            assert!(!res.committed());
            assert_eq!(ctx, vec!["Context".to_string()]);
        }
        Outcome::Terminate => panic!("a missing file must pass through"),
    }
}

#[test]
fn handler_passes_non_matching_prefix_through_unchanged() {
    let sf = StaticFile::new("/public".to_string(), "./public".to_string());
    let req = static_request(Method::Get, "/elsewhere/readme.txt");
    let out = sf.serve_file(req, Response::new(), vec!["Context".to_string()], FileProbe::Absent);
    match out {
        Outcome::Continue(req, res, ctx) => {
            assert_eq!(req.method, Method::Get);
            assert_eq!(req.path, "/elsewhere/readme.txt");
            assert!(!res.committed());
            assert_eq!(ctx, vec!["Context".to_string()]);
        }
        Outcome::Terminate => panic!("a non-matching prefix must pass through"),
    }
}

#[test]
fn handler_maps_directory_request_to_index_file() {
    let sf = StaticFile::new("/public".to_string(), "./public".to_string());
    let req = static_request(Method::Get, "/public/docs/");
    assert_eq!(sf.target(&req), Some("./public/docs/index.html".to_string()));
}
