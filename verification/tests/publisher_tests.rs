use tinyserve::fs::FsNode;
use tinyserve::router::{Action, Router};
use tinyserve::server::ServerUtilities;

fn file(name: &str) -> FsNode {
    FsNode::File { name: String::from(name) }
}

fn dir(name: &str, entries: Vec<FsNode>) -> FsNode {
    FsNode::Dir { name: String::from(name), entries }
}

fn served_path<'a>(router: &'a Router, method: &str, path: &str) -> &'a str {
    match router.request_handler(method, path) {
        Some(Action::ServeFile { file_path }) => file_path.as_str(),
        _ => panic!("a file-serving route must be bound at {} {}", method, path),
    }
}

#[test]
fn test_publish_registers_one_route_per_file() {
    let root = dir(
        "public",
        vec![file("index.html"), dir("css", vec![file("site.css")])],
    );
    let mut router = Router::new();
    ServerUtilities::serve_static(&root, &mut router);
    assert_eq!(served_path(&router, "GET", "/index.html"), "public/index.html");
    assert_eq!(served_path(&router, "GET", "/css/site.css"), "public/css/site.css");
}

#[test]
fn test_publish_paths_are_root_relative_not_absolute() {
    let root = dir("public", vec![file("index.html")]);
    let mut router = Router::new();
    ServerUtilities::serve_static(&root, &mut router);
    assert!(router.request_handler("GET", "/public/index.html").is_none());
    assert!(router.request_handler("GET", "/index.html").is_some());
}

#[test]
fn test_publish_deeply_nested_file() {
    let root = dir("assets", vec![dir("a", vec![dir("b", vec![file("c.txt")])])]);
    let mut router = Router::new();
    ServerUtilities::serve_static(&root, &mut router);
    assert_eq!(served_path(&router, "GET", "/a/b/c.txt"), "assets/a/b/c.txt");
    assert!(router.request_handler("GET", "/c.txt").is_none());
    assert!(router.request_handler("GET", "/b/c.txt").is_none());
}

#[test]
fn test_publish_registers_only_get_routes() {
    let root = dir("public", vec![file("index.html")]);
    let mut router = Router::new();
    ServerUtilities::serve_static(&root, &mut router);
    assert!(router.request_handler("POST", "/index.html").is_none());
}

#[test]
fn test_publish_two_roots_last_wins() {
    let first = dir("a", vec![file("index.html"), file("only_a.txt")]);
    let second = dir("b", vec![file("index.html")]);
    let mut router = Router::new();
    let folders = vec![first, second];
    ServerUtilities::public_folders_handler(&folders, &mut router);
    assert_eq!(served_path(&router, "GET", "/index.html"), "b/index.html");
    assert_eq!(served_path(&router, "GET", "/only_a.txt"), "a/only_a.txt");
}

#[test]
fn test_end_to_end_scenario() {
    let root = dir(
        "public",
        vec![file("index.html"), dir("css", vec![file("site.css")])],
    );
    let mut router = Router::new();
    ServerUtilities::serve_static(&root, &mut router);

    let index_bytes = b"<h1>welcome</h1>".to_vec();
    let css_bytes = b"body {}".to_vec();

    let index_path = String::from(served_path(&router, "GET", "/index.html"));
    let r = ServerUtilities::serve_file(Some(index_bytes.clone()), &index_path);
    assert_eq!(r.status, 200);
    assert_eq!(r.body, index_bytes);

    let css_path = String::from(served_path(&router, "GET", "/css/site.css"));
    let r = ServerUtilities::serve_file(Some(css_bytes.clone()), &css_path);
    assert_eq!(r.status, 200);
    assert_eq!(r.body, css_bytes);

    assert!(router.request_handler("GET", "/missing.png").is_none());
    let r = ServerUtilities::serve_error(None);
    assert_eq!(r.status, 404);
}

#[test]
fn test_publish_empty_directory_adds_nothing() {
    let root = dir("public", vec![dir("empty", vec![])]);
    let mut router = Router::new();
    ServerUtilities::serve_static(&root, &mut router);
    assert!(router.request_handler("GET", "/").is_none());
    assert!(router.request_handler("GET", "/empty").is_none());
    assert!(router.request_handler("GET", "/empty/").is_none());
}
