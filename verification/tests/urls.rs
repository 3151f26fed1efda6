use std::collections::HashMap;
use rafthttp::url_pick::BaseurlPicker;
use rafthttp::urls::{new_urls, resolve_peer_url, try_new_urls, UrlsError, URLs};
use url::Url;

#[test]
fn test_url_picker_pick_twice() {
    let urls = vec!["http://127.0.0.1:2380".to_string(), "http://127.0.0.1:7001".to_string()];
    let urls = new_urls(urls, resolve_peer_url).unwrap();
    let mut url_picker = BaseurlPicker::new(urls);
    let u = url_picker.pick();
    let mut url_map = HashMap::new();
    url_map.insert(Url::parse("http://127.0.0.1:7001").unwrap(), true);
    url_map.insert(Url::parse("http://127.0.0.1:2380").unwrap(), true);
    assert!(url_map.get(&u.clone().unwrap().as_str().parse::<Url>().unwrap()).unwrap());
    let uu = url_picker.pick();
    assert_eq!(u.unwrap().as_str().parse::<Url>().unwrap(), uu.unwrap().as_str().parse::<Url>().unwrap());
}

#[test]
fn test_url_picker_update() {
    let urls = vec!["http://127.0.0.1:2380".to_string(), "http://127.0.0.1:7001".to_string()];
    let urls = new_urls(urls, resolve_peer_url).unwrap();
    let mut url_picker = BaseurlPicker::new(urls);
    let new_url = vec!["http://localhost:2380".to_string(), "http://localhost:7001".to_string()];
    let new_url = new_urls(new_url, resolve_peer_url).unwrap();
    url_picker.update(new_url);
    let u = url_picker.pick();
    let mut url_map = HashMap::new();
    url_map.insert(Url::parse("http://localhost:7001").unwrap(), true);
    url_map.insert(Url::parse("http://localhost:2380").unwrap(), true);
    assert!(url_map.get(&u.clone().unwrap().as_str().parse::<Url>().unwrap()).unwrap());
}

#[test]
fn test_url_picker_unreachable() {
    let urls = vec!["http://127.0.0.1:2380".to_string(), "http://127.0.0.1:7001".to_string()];
    let urls = new_urls(urls, resolve_peer_url).unwrap();
    let mut url_picker = BaseurlPicker::new(urls);
    let u = url_picker.pick();
    url_picker.unreachable(u.clone().unwrap());
    let uu = url_picker.pick();
    assert!(u.unwrap().as_str().parse::<Url>().unwrap() != uu.unwrap().as_str().parse::<Url>().unwrap());
}

#[test]
fn picker_wraps_round_after_last_url() {
    let urls = new_urls(vec!["http://10.0.0.2:1".to_string(), "http://10.0.0.1:1".to_string()], resolve_peer_url).unwrap();
    let mut p = BaseurlPicker::new(urls);
    let first = p.pick().unwrap();
    assert_eq!(first.as_str(), "http://10.0.0.1:1/");
    p.unreachable(first.clone());
    let second = p.pick().unwrap();
    assert_eq!(second.as_str(), "http://10.0.0.2:1/");
    // reporting a URL that is not the picked one changes nothing
    p.unreachable(first.clone());
    assert_eq!(p.pick().unwrap().as_str(), "http://10.0.0.2:1/");
    p.unreachable(second);
    assert_eq!(p.pick().unwrap().as_str(), "http://10.0.0.1:1/");
}

#[test]
fn new_urls_sorts_and_trims() {
    let urls = new_urls(vec![
        " https://127.0.0.1:2380 ".to_string(),
        "http://127.0.0.1:7001".to_string(),
        "http://127.0.0.1:2380".to_string(),
    ], resolve_peer_url)
    .unwrap();
    assert_eq!(urls.len(), 3);
    assert_eq!(
        urls.string_slice(),
        vec![
            "http://127.0.0.1:2380/".to_string(),
            "http://127.0.0.1:7001/".to_string(),
            "https://127.0.0.1:2380/".to_string()
        ]
    );
    assert_eq!(urls.String(), "http://127.0.0.1:2380/,http://127.0.0.1:7001/,https://127.0.0.1:2380/,");
    assert!(urls.less(0, 1));
    assert!(!urls.less(1, 0));
    assert!(!urls.less(1, 1));
    assert!(urls.get_url(3).is_none());
}

#[test]
fn new_urls_errors() {
    assert_eq!(new_urls(vec![], resolve_peer_url).err(), Some(UrlsError::NoUrls));
    assert_eq!(new_urls(vec!["ftp://127.0.0.1:21".to_string()], resolve_peer_url).err(), Some(UrlsError::BadScheme));
    assert_eq!(
        new_urls(vec!["http://127.0.0.1:2380/path".to_string()], resolve_peer_url).err(),
        Some(UrlsError::HasPath)
    );
    assert!(matches!(
        new_urls(vec!["unix://127.0.0.1".to_string()], resolve_peer_url),
        Err(UrlsError::Resolve(_))
    ));
    assert_eq!(UrlsError::NoUrls.message(), "no valid URLs given");
    assert_eq!(UrlsError::HasPath.message(), "URL must not contain a path");
}

#[test]
fn try_new_urls_refuses_non_urls() {
    assert!(try_new_urls(vec!["not a url".to_string()], resolve_peer_url).is_none());
    assert_eq!(
        try_new_urls(vec!["ftp://a".to_string(), "%%".to_string()], resolve_peer_url).unwrap().err(),
        Some(UrlsError::BadScheme)
    );
    assert!(try_new_urls(vec!["http://127.0.0.1:1".to_string(), "%%".to_string()], resolve_peer_url).is_none());
    assert!(try_new_urls(vec!["http://127.0.0.1:1".to_string()], resolve_peer_url).unwrap().is_ok());
}

#[test]
fn urls_swap_and_sort() {
    let parsed = new_urls(vec!["http://127.0.0.2:1".to_string(), "https://127.0.0.1:2380".to_string()], resolve_peer_url).unwrap();
    let a = parsed.get_url(1).unwrap();
    let b = parsed.get_url(0).unwrap();
    assert_eq!(a.as_str(), "https://127.0.0.1:2380/");
    let mut us = URLs::new(vec![a, b]);
    assert!(!us.less(0, 1));
    assert!(us.less(1, 0));
    us.swap(0, 1);
    assert_eq!(us.string_slice(), vec!["http://127.0.0.2:1/".to_string(), "https://127.0.0.1:2380/".to_string()]);
    us.swap(0, 1);
    us.sort();
    assert_eq!(us.string_slice(), vec!["http://127.0.0.2:1/".to_string(), "https://127.0.0.1:2380/".to_string()]);
    let u = us.get_url(1).unwrap();
    assert_eq!(u.scheme(), "https");
    assert_eq!(u.path(), "/");
    assert!(us.get_url(2).is_none());
}

#[test]
fn urls_clone_keeps_the_list() {
    let urls = rafthttp::urls::new_urls(vec!["http://127.0.0.1:7001".to_string(), "http://127.0.0.1:2380".to_string()], resolve_peer_url).unwrap();
    let copy = urls.clone();
    assert_eq!(copy.string_slice(), urls.string_slice());
    assert_eq!(copy.String(), "http://127.0.0.1:2380/,http://127.0.0.1:7001/,");
}

#[test]
fn new_urls_reports_what_the_resolver_answers() {
    let none = |_: &rafthttp::urls::PeerUrl| -> Result<usize, String> { Ok(0) };
    assert_eq!(new_urls(vec!["http://127.0.0.1:1".to_string()], none).err(), Some(UrlsError::NotHostPort));
    let down = |_: &rafthttp::urls::PeerUrl| -> Result<usize, String> { Err("down".to_string()) };
    assert_eq!(
        new_urls(vec!["http://127.0.0.1:1".to_string()], down).err(),
        Some(UrlsError::Resolve("down".to_string()))
    );
    let one = |_: &rafthttp::urls::PeerUrl| -> Result<usize, String> { Ok(1) };
    assert!(new_urls(vec!["http://name.invalid:1".to_string()], one).is_ok());
}
