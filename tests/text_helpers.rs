use copymanga::keys::{chapter_key, progress_key, task_key};
use copymanga::text::{
    chars_of, generate_path_word_from_uuid, get_base_url, get_extension_from_filename,
    get_filename_from_url, percent_decode,
};

#[test]
fn filename_is_last_path_part() {
    assert_eq!(get_filename_from_url("https://a.b/c/d/001.webp"), "001.webp");
    assert_eq!(get_filename_from_url("plain"), "plain");
    assert_eq!(get_filename_from_url("https://a.b/dir/"), "");
}

#[test]
fn extension_is_after_last_dot() {
    assert_eq!(get_extension_from_filename("cover.jpg"), "jpg");
    assert_eq!(get_extension_from_filename("a.b.png"), "png");
    assert_eq!(get_extension_from_filename("noext"), "noext");
}

#[test]
fn base_url_keeps_last_slash() {
    assert_eq!(get_base_url("https://cdn.x/v/1/index.m3u8"), "https://cdn.x/v/1/");
    assert_eq!(get_base_url("index.m3u8"), "");
}

#[test]
fn path_word_drops_dashes_and_keeps_twelve() {
    assert_eq!(
        generate_path_word_from_uuid("123e4567-e89b-12d3-a456-426614174000"),
        "123e4567e89b"
    );
    assert_eq!(generate_path_word_from_uuid("ab-c"), "abc");
}

#[test]
fn percent_decode_undoes_listed_escapes() {
    assert_eq!(
        percent_decode("https%3A%2F%2Fx.com%2Fa%3Fb%3D1%26c%3D2"),
        "https://x.com/a?b=1&c=2"
    );
    assert_eq!(percent_decode("a%2Eb%2Dc%5Fd%7Ee"), "a.b-c_d~e");
    assert_eq!(percent_decode("%20stays"), "%20stays");
    assert_eq!(percent_decode("%3a lower stays"), "%3a lower stays");
}

#[test]
fn keys_join_parts() {
    assert_eq!(chapter_key("m", "default", "c1"), "m|default|c1");
    assert_eq!(progress_key("cart", "ep"), "cart_ep");
    assert_eq!(task_key("cart", "ep"), "cart|ep");
}

#[test]
fn chars_of_keeps_unicode() {
    assert_eq!(chars_of("第1话"), vec!['第', '1', '话']);
}
