use tinyserve::server::{HttpResponse, ServerUtilities};

fn content_type_of(r: &HttpResponse) -> &str {
    r.content_type.as_deref().expect("a content type must be set")
}

#[test]
fn test_serve_file_success_html() {
    let bytes = b"<h1>hi</h1>".to_vec();
    let path = String::from("public/index.html");
    let r = ServerUtilities::serve_file(Some(bytes.clone()), &path);
    assert_eq!(r.status, 200);
    assert_eq!(r.body, bytes);
    assert_eq!(content_type_of(&r), "text/html");
}

#[test]
fn test_serve_file_success_css() {
    let bytes = b"body { color: red; }".to_vec();
    let path = String::from("public/css/site.css");
    let r = ServerUtilities::serve_file(Some(bytes.clone()), &path);
    assert_eq!(r.status, 200);
    assert_eq!(r.body, bytes);
    assert_eq!(content_type_of(&r), "text/css");
}

#[test]
fn test_serve_file_unknown_extension_is_binary() {
    let bytes = vec![0u8, 159, 146, 150];
    let path = String::from("public/blob.qqq");
    let r = ServerUtilities::serve_file(Some(bytes.clone()), &path);
    assert_eq!(r.status, 200);
    assert_eq!(r.body, bytes);
    assert_eq!(content_type_of(&r), "application/octet-stream");
}

#[test]
fn test_serve_file_missing_is_404() {
    let path = String::from("public/index.html");
    let r = ServerUtilities::serve_file(None, &path);
    assert_eq!(r.status, 404);
    assert_eq!(r.body, b"File Not Found".to_vec());
    assert!(r.content_type.is_none());
}

#[test]
fn test_serve_error_with_document() {
    let doc = b"<html>custom not found</html>".to_vec();
    let r = ServerUtilities::serve_error(Some(doc.clone()));
    assert_eq!(r.status, 404);
    assert_eq!(r.body, doc);
    assert_eq!(content_type_of(&r), "text/html; charset=UTF-8");
}

#[test]
fn test_serve_error_without_document() {
    let r = ServerUtilities::serve_error(None);
    assert_eq!(r.status, 404);
    assert_eq!(r.body, b"Error 404: Not Found! Try with /hello".to_vec());
    assert!(r.content_type.is_none());
}
