use copymanga::image::ImageDownload;
use copymanga::listing::{latest_download_time, text_before};
use copymanga::proxy::{
    cors_headers, forwards_request_header, forwards_response_header, preflight_headers,
    route_proxy_request, ProxyRoute,
};
use copymanga::types::{DownloadInfo, ImageInfo};

#[test]
fn external_url_is_decoded() {
    match route_proxy_request("/proxy", "url=https%3A%2F%2Fimg.x%2Fa%20b.jpg", "https://api") {
        ProxyRoute::External(u) => assert_eq!(u, "https://img.x/a b.jpg"),
        _ => panic!("expected an external route"),
    }
}

#[test]
fn undecodable_external_url_is_kept() {
    match route_proxy_request("", "url=%FF%FE", "https://api") {
        ProxyRoute::External(u) => assert_eq!(u, "%FF%FE"),
        _ => panic!("expected an external route"),
    }
}

#[test]
fn internal_route_joins_domain_path_query() {
    match route_proxy_request("/proxy/api/v3/comics", "limit=10", "https://api.x") {
        ProxyRoute::Internal(u) => assert_eq!(u, "https://api.x/api/v3/comics?limit=10"),
        _ => panic!("expected an internal route"),
    }
    match route_proxy_request("/proxy/proxy/a", "", "https://api.x") {
        ProxyRoute::Internal(u) => assert_eq!(u, "https://api.x/a"),
        _ => panic!("expected an internal route"),
    }
    match route_proxy_request("/proxy/a", "url=x", "d") {
        ProxyRoute::Internal(u) => assert_eq!(u, "d/a?url=x"),
        _ => panic!("expected an internal route"),
    }
}

#[test]
fn header_filters() {
    assert!(!forwards_request_header("host"));
    assert!(!forwards_request_header("content-length"));
    assert!(forwards_request_header("authorization"));
    assert!(!forwards_response_header("access-control-allow-origin"));
    assert!(forwards_response_header("content-type"));
}

#[test]
fn cors_answers() {
    let with_origin = cors_headers("http://localhost:1420");
    assert_eq!(with_origin.len(), 2);
    assert_eq!(with_origin[0].1, "http://localhost:1420");
    assert_eq!(with_origin[1], ("Access-Control-Allow-Credentials".to_string(), "true".to_string()));
    let any = cors_headers("");
    assert_eq!(any, vec![("Access-Control-Allow-Origin".to_string(), "*".to_string())]);
    let pre = preflight_headers("");
    assert_eq!(pre.len(), 4);
    assert_eq!(pre[3], ("Access-Control-Max-Age".to_string(), "86400".to_string()));
}

#[test]
fn text_order_and_latest_time() {
    assert!(text_before("2024-01-01 10:00:00", "2024-01-02 09:00:00"));
    assert!(!text_before("b", "a"));
    assert!(text_before("ab", "abc"));
    assert!(!text_before("x", "x"));
    let times = vec![
        "2024-03-01 00:00:00".to_string(),
        "2024-05-01 00:00:00".to_string(),
        "2024-04-01 00:00:00".to_string(),
    ];
    assert_eq!(latest_download_time(&times), "2024-05-01 00:00:00");
    assert_eq!(latest_download_time(&vec![]), "");
}

#[test]
fn journal_is_stamped_with_the_clock() {
    let info = DownloadInfo {
        manga_uuid: "m".to_string(),
        manga_name: "n".to_string(),
        group_path_word: "g".to_string(),
        chapter_uuid: "c".to_string(),
        chapter_name: "x".to_string(),
        images: vec![ImageInfo { url: "u".to_string(), index: 0, filename: "f.jpg".to_string() }],
        manga_detail: None,
    };
    let dl = ImageDownload::new(info);
    let j = dl.journal();
    assert_eq!(j.download_time.len(), 19);
    assert_eq!(&j.download_time[4..5], "-");
    assert_eq!(j.total_images, 1);
}

#[test]
fn external_url_without_escapes_is_kept() {
    match route_proxy_request("/proxy", "url=https://img.x/a.jpg?w=1", "d") {
        ProxyRoute::External(u) => assert_eq!(u, "https://img.x/a.jpg?w=1"),
        _ => panic!("expected an external route"),
    }
}
