use boulder_upstream::uri::Url;

fn parse(text: &str) -> Option<Url> {
    Url::parse(text, "file".to_owned(), "some/file".to_owned())
}

#[test]
fn a_url_is_taken_apart() {
    let url = parse("HTTPS://Example.COM/a/../pkg.tar.xz?x=1#top").unwrap();
    assert_eq!(url.as_str(), "https://example.com/pkg.tar.xz?x=1#top");
    assert_eq!(url.host_str(), Some("example.com"));
    assert_eq!(url.path(), "/pkg.tar.xz");
    assert_eq!(url.file_name(), "file");
    assert_eq!(url.relative_path(), "some/file");
}

#[test]
fn a_url_may_have_no_host() {
    let url = parse("file:///srv/repo").unwrap();
    assert_eq!(url.host_str(), None);
    assert_eq!(url.path(), "/srv/repo");
}

#[test]
fn what_is_no_absolute_url_is_refused() {
    assert!(parse("pkg.tar.xz").is_none());
    assert!(parse("").is_none());
}

#[test]
fn a_copy_is_the_same_url() {
    let url = parse("https://example.com/x").unwrap();
    let copy = url.clone();
    assert_eq!(copy.as_str(), url.as_str());
    assert_eq!(copy.host_str(), url.host_str());
    assert_eq!(copy.path(), url.path());
}
