use saba_core::url::Url;

#[test]
fn test_url_host() {
    let url = "http://example.com".to_string();
    let expected = Ok(Url {
        url: url.clone(),
        host: "example.com".to_string(),
        port: "80".to_string(),
        path: "".to_string(),
        searchpart: "".to_string(),
    });

    assert_eq!(expected, Url::new(url).parse());
}

#[test]
fn test_url_host_port() {
    let url = "http://example.com:8080".to_string();
    let expected = Ok(Url {
        url: url.clone(),
        host: "example.com".to_string(),
        port: "8080".to_string(),
        path: "".to_string(),
        searchpart: "".to_string(),
    });

    assert_eq!(expected, Url::new(url).parse());
}

#[test]
fn test_url_host_port_path() {
    let url = "http://example.com:8080/index.html".to_string();
    let expected = Ok(Url {
        url: url.clone(),
        host: "example.com".to_string(),
        port: "8080".to_string(),
        path: "index.html".to_string(),
        searchpart: "".to_string(),
    });

    assert_eq!(expected, Url::new(url).parse());
}

#[test]
fn test_url_host_port_path_searchpart() {
    let url = "http://example.com:8080/index.html?a=123&b=456".to_string();
    let expected = Ok(Url {
        url: url.clone(),
        host: "example.com".to_string(),
        port: "8080".to_string(),
        path: "index.html".to_string(),
        searchpart: "a=123&b=456".to_string(),
    });

    assert_eq!(expected, Url::new(url).parse());
}

#[test]
fn test_url_host_path() {
    let url = "http://example.com/index.html".to_string();
    let expected = Ok(Url {
        url: url.clone(),
        host: "example.com".to_string(),
        port: "80".to_string(),
        path: "index.html".to_string(),
        searchpart: "".to_string(),
    });

    assert_eq!(expected, Url::new(url).parse());
}

#[test]
fn test_no_schema() {
    let url = "example.com".to_string();
    let expected = Err("Only HTTP schema is supported.".to_string());

    assert_eq!(expected, Url::new(url).parse());
}

#[test]
fn test_unsupported_schema() {
    let url = "https://example.com".to_string();
    let expected = Err("Only HTTP schema is supported.".to_string());

    assert_eq!(expected, Url::new(url).parse());
}

#[test]
fn url_parts_are_kept_and_handed_out() {
    let mut url = Url::new("http://h:1/p/q?x?y".to_string());
    let parsed = url.parse().expect("an HTTP URL");
    assert_eq!(parsed, url);
    assert_eq!(url.host(), "h");
    assert_eq!(url.port(), "1");
    assert_eq!(url.path(), "p/q");
    assert_eq!(url.searchpart(), "x?y");
}

#[test]
fn url_scheme_is_taken_off_as_often_as_it_stands_in_front() {
    let parsed = Url::new("http://http://a:b:c".to_string()).parse().expect("an HTTP URL");
    assert_eq!(parsed.host(), "a");
    assert_eq!(parsed.port(), "b:c");
    let parsed = Url::new("x/http://y".to_string()).parse().expect("names the scheme");
    assert_eq!(parsed.host(), "x");
    assert_eq!(parsed.port(), "80");
    assert_eq!(parsed.path(), "http://y");
}

#[test]
fn url_that_fails_to_parse_is_left_as_it_was() {
    let mut url = Url::new("ftp://example.com".to_string());
    assert!(url.parse().is_err());
    assert_eq!(url, Url::new("ftp://example.com".to_string()));
}
