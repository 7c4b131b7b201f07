use copymanga::playlist::parse_m3u8_segments;

#[test]
fn playlist_lines_become_segment_urls() {
    let text = "#EXTM3U\n#EXT-X-VERSION:3\n#EXTINF:10.0,\nseg0.ts\n\n#EXTINF:10.0,\n  seg1.ts  \r\nhttps://other.cdn/seg2.ts\n#EXT-X-ENDLIST\n";
    let segs = parse_m3u8_segments(text, "https://cdn.x/v/").unwrap();
    assert_eq!(
        segs,
        vec![
            "https://cdn.x/v/seg0.ts".to_string(),
            "https://cdn.x/v/seg1.ts".to_string(),
            "https://other.cdn/seg2.ts".to_string(),
        ]
    );
}

#[test]
fn playlist_without_segments_is_empty() {
    assert!(parse_m3u8_segments("#EXTM3U\n\n# only comments\n", "b/").unwrap().is_empty());
    assert!(parse_m3u8_segments("", "b/").unwrap().is_empty());
}

#[test]
fn playlist_last_line_without_newline_counts() {
    let segs = parse_m3u8_segments("a.ts\nb.ts", "").unwrap();
    assert_eq!(segs, vec!["a.ts".to_string(), "b.ts".to_string()]);
}
