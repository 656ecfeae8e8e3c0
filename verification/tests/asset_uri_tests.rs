use holochain_runtime::asset_uri::{
    chars_of, find, find_char, is_ping, parse_asset_uri, split_range, stands_at, AssetRequest,
};

/// The location and its components as std's `split` yields them.
fn by_split(uri: &str) -> Option<AssetRequest> {
    let location = uri.split("://").nth(1)?.split('?').next().unwrap().to_string();
    let mut components: Vec<String> = location.split('/').map(|s| s.to_string()).collect();
    let app_id = components.remove(0);
    Some(AssetRequest { app_id, path: components })
}

fn request(app_id: &str, path: &[&str]) -> Option<AssetRequest> {
    Some(AssetRequest {
        app_id: app_id.to_string(),
        path: path.iter().map(|s| s.to_string()).collect(),
    })
}

#[test]
fn asset_uri_names_app_and_path() {
    assert_eq!(
        parse_asset_uri("happ://forum/assets/index.js"),
        request("forum", &["assets", "index.js"])
    );
    assert_eq!(parse_asset_uri("happ://forum"), request("forum", &[]));
    assert_eq!(parse_asset_uri("happ://forum/"), request("forum", &[""]));
    assert_eq!(parse_asset_uri("http://happ.forum/index.html"), request("happ.forum", &["index.html"]));
}

#[test]
fn asset_uri_drops_the_query_string() {
    assert_eq!(
        parse_asset_uri("happ://forum/index.html?lang=en&x=a/b"),
        request("forum", &["index.html"])
    );
    assert_eq!(parse_asset_uri("happ://forum?x=1"), request("forum", &[]));
    assert_eq!(parse_asset_uri("happ://?x"), request("", &[]));
}

#[test]
fn asset_uri_ends_at_a_second_separator() {
    assert_eq!(parse_asset_uri("happ://forum/a://b/c"), request("forum", &["a"]));
    assert_eq!(parse_asset_uri("a://b?c://d/e"), request("b", &[]));
    assert_eq!(parse_asset_uri("://"), request("", &[]));
    assert_eq!(parse_asset_uri(":///"), request("", &[""]));
    assert_eq!(parse_asset_uri("::///x"), request("", &["x"]));
}

#[test]
fn asset_uri_without_separator_is_refused() {
    assert_eq!(parse_asset_uri(""), None);
    assert_eq!(parse_asset_uri("forum/index.html"), None);
    assert_eq!(parse_asset_uri("happ:/forum"), None);
    assert_eq!(parse_asset_uri("happ:"), None);
}

#[test]
fn asset_uri_is_read_as_split_reads_it() {
    for uri in [
        "happ://forum/assets/index.js",
        "happ://forum//double//slash",
        "happ://für/ä/ö?ü=1",
        "happ://forum/a?b?c",
        "x://y://z://w",
        "no separator",
        "://",
        "a://?",
        "happ://app.id/%20/index.html?q=://",
    ] {
        assert_eq!(parse_asset_uri(uri), by_split(uri), "{uri}");
    }
}

#[test]
fn ping_is_recognised_by_its_beginning() {
    assert!(is_ping("happ://ping"));
    assert!(is_ping("happ://ping/anything?x"));
    assert!(!is_ping("happ://pin"));
    assert!(!is_ping("http://ping"));
    assert!(!is_ping(""));
}

#[test]
fn find_gives_the_first_place_or_the_length() {
    let text = chars_of("a://b://c");
    let sep = chars_of("://");
    assert_eq!(find(&text, &sep, 0), 1);
    assert_eq!(find(&text, &sep, 1), 1);
    assert_eq!(find(&text, &sep, 2), 5);
    assert_eq!(find(&text, &sep, 6), 9);
    assert_eq!(find(&text, &sep, 100), 9);
    assert_eq!(find(&text, &Vec::new(), 3), 3);
    assert_eq!(find(&Vec::new(), &sep, 0), 0);
    assert!(stands_at(&text, &sep, 5));
    assert!(!stands_at(&text, &sep, 6));
    assert!(!stands_at(&text, &sep, 8));
    assert_eq!(find_char(&text, '/', 0, 9), 2);
    assert_eq!(find_char(&text, '/', 4, 9), 6);
    assert_eq!(find_char(&text, '?', 0, 9), 9);
    assert_eq!(find_char(&text, '/', 0, 2), 2);
}

#[test]
fn split_gives_one_part_more_than_separators() {
    let uri = "a/b//c/";
    let chars = chars_of(uri);
    assert_eq!(split_range(uri, &chars, 0, 7, '/'), vec!["a", "b", "", "c", ""]);
    assert_eq!(split_range(uri, &chars, 2, 4, '/'), vec!["b", ""]);
    assert_eq!(split_range(uri, &chars, 3, 3, '/'), vec![""]);
    assert_eq!(split_range(uri, &chars, 0, 1, '/'), vec!["a"]);
}
