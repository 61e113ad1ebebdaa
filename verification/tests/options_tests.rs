use tinyserve::options::ServerOptions;

#[test]
fn test_options_new_and_getters() {
    let folders = vec![String::from("public"), String::from("assets")];
    let options = ServerOptions::new(Some(folders.clone()), 8080);
    assert_eq!(options.get_port(), 8080);
    assert_eq!(options.get_public_folders(), Some(folders));
}

#[test]
fn test_options_without_folders() {
    let options = ServerOptions::new(None, 9000);
    assert_eq!(options.get_port(), 9000);
    assert_eq!(options.get_public_folders(), None);
}

#[test]
fn test_options_default() {
    let options = ServerOptions::default();
    assert_eq!(options.get_port(), 8000);
    assert_eq!(options.get_public_folders(), None);
}
