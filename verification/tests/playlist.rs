use manifest_rewrite::playlist::{
    decode, encode, prefix_uri, rewrite_body, rewrite_variants, PlaylistError,
};

const MASTER: &str = "#EXTM3U\n\
#EXT-X-VERSION:3\n\
#EXT-X-STREAM-INF:BANDWIDTH=1280000,RESOLUTION=640x360\n\
video/low.m3u8\n\
#EXT-X-STREAM-INF:BANDWIDTH=2560000,RESOLUTION=1280x720\n\
video/high.m3u8\n";

const RICH: &str = "#EXTM3U\n\
#EXT-X-VERSION:6\n\
#EXT-X-MEDIA:TYPE=AUDIO,GROUP-ID=\"aac\",NAME=\"English\",DEFAULT=YES,URI=\"audio/en.m3u8\"\n\
#EXT-X-STREAM-INF:BANDWIDTH=800000,AVERAGE-BANDWIDTH=700000,CODECS=\"avc1.4d401e,mp4a.40.2\",RESOLUTION=640x360,FRAME-RATE=29.970,AUDIO=\"aac\"\n\
https://cdn.example.com/v/360.m3u8\n\
#EXT-X-I-FRAME-STREAM-INF:BANDWIDTH=90000,URI=\"iframe/360.m3u8\"\n\
#EXT-X-STREAM-INF:BANDWIDTH=2400000,RESOLUTION=1280x720\n\
v/720.m3u8\n\
#EXT-X-SESSION-DATA:DATA-ID=\"com.example.title\",VALUE=\"Title\"\n\
#EXT-X-INDEPENDENT-SEGMENTS\n";

fn uris(text: &str, token: &str) -> Vec<String> {
    let playlist = decode(text.as_bytes()).unwrap();
    rewrite_variants(playlist, token).variants.into_iter().map(|v| v.uri).collect()
}

#[test]
fn prefix_uri_joins_with_a_slash() {
    assert_eq!(prefix_uri("abc123", "video/low.m3u8"), "abc123/video/low.m3u8");
}

#[test]
fn prefix_uri_of_empty_parts() {
    assert_eq!(prefix_uri("t", ""), "t/");
    assert_eq!(prefix_uri("", "u"), "/u");
}

#[test]
fn prefix_uri_keeps_an_absolute_uri_whole() {
    assert_eq!(
        prefix_uri("tok", "https://cdn.example.com/v/360.m3u8"),
        "tok/https://cdn.example.com/v/360.m3u8"
    );
}

#[test]
fn rewrite_prefixes_both_variants() {
    assert_eq!(
        uris(MASTER, "abc123"),
        vec!["abc123/video/low.m3u8", "abc123/video/high.m3u8"]
    );
}

#[test]
fn rewrite_keeps_number_order_and_attributes() {
    let before = decode(RICH.as_bytes()).unwrap();
    let after = rewrite_variants(decode(RICH.as_bytes()).unwrap(), "s3ss10n");
    assert_eq!(before.variants.len(), 3);
    assert_eq!(after.variants.len(), 3);
    for (old, new) in before.variants.iter().zip(after.variants.iter()) {
        assert_eq!(new.uri, format!("s3ss10n/{}", old.uri));
        assert_eq!(new.attributes, old.attributes);
    }
    assert_eq!(after.directives, before.directives);
    assert_eq!(after.variants[0].attributes.bandwidth, "800000");
    assert_eq!(after.variants[1].attributes.is_i_frame, true);
    assert_eq!(after.variants[2].attributes.resolution.as_deref(), Some("1280x720"));
}

#[test]
fn rewrite_of_no_variants_is_no_variants() {
    let playlist = decode(b"#EXTM3U\n#EXT-X-SESSION-KEY:METHOD=NONE\n").unwrap();
    assert_eq!(playlist.variants.len(), 0);
    let directives = playlist.directives.clone();
    let after = rewrite_variants(playlist, "abc123");
    assert_eq!(after.variants.len(), 0);
    assert_eq!(after.directives, directives);
}

#[test]
fn rewrite_twice_doubles_the_prefix() {
    let once = rewrite_variants(decode(MASTER.as_bytes()).unwrap(), "abc123");
    let twice = rewrite_variants(once, "abc123");
    let got: Vec<&str> = twice.variants.iter().map(|v| v.uri.as_str()).collect();
    assert_eq!(got, vec!["abc123/abc123/video/low.m3u8", "abc123/abc123/video/high.m3u8"]);
}

#[test]
fn decode_reads_uris_in_order() {
    let playlist = decode(RICH.as_bytes()).unwrap();
    let got: Vec<&str> = playlist.variants.iter().map(|v| v.uri.as_str()).collect();
    assert_eq!(got, vec!["https://cdn.example.com/v/360.m3u8", "iframe/360.m3u8", "v/720.m3u8"]);
}

#[test]
fn decode_moves_the_uri_out_of_the_attributes() {
    let playlist = decode(MASTER.as_bytes()).unwrap();
    assert_eq!(playlist.variants[0].attributes.uri, "");
    assert_eq!(playlist.variants[0].attributes.bandwidth, "1280000");
    assert_eq!(playlist.directives.variants.len(), 0);
    assert_eq!(playlist.directives.version, 3);
}

#[test]
fn encode_of_decode_keeps_the_text() {
    let playlist = decode(MASTER.as_bytes()).unwrap();
    assert_eq!(encode(&playlist).unwrap(), MASTER.as_bytes());
}

#[test]
fn encode_writes_the_uri_of_the_variant_not_of_its_attributes() {
    let mut playlist = decode(MASTER.as_bytes()).unwrap();
    playlist.variants[0].attributes.uri = String::from("stale.m3u8");
    playlist.variants[0].uri = String::from("fresh.m3u8");
    let text = String::from_utf8(encode(&playlist).unwrap()).unwrap();
    assert!(text.contains("\nfresh.m3u8\n"));
    assert!(!text.contains("stale.m3u8"));
}

#[test]
fn rewrite_body_writes_the_prefixed_playlist() {
    let out = rewrite_body(MASTER.as_bytes(), "abc123").unwrap();
    let text = String::from_utf8(out).unwrap();
    assert_eq!(
        text,
        "#EXTM3U\n\
#EXT-X-VERSION:3\n\
#EXT-X-STREAM-INF:BANDWIDTH=1280000,RESOLUTION=640x360\n\
abc123/video/low.m3u8\n\
#EXT-X-STREAM-INF:BANDWIDTH=2560000,RESOLUTION=1280x720\n\
abc123/video/high.m3u8\n"
    );
}

#[test]
fn rewrite_body_prefixes_the_uri_of_an_i_frame_stream() {
    let out = rewrite_body(RICH.as_bytes(), "tok").unwrap();
    let text = String::from_utf8(out).unwrap();
    assert!(text.contains("#EXT-X-I-FRAME-STREAM-INF:BANDWIDTH=90000,URI=\"tok/iframe/360.m3u8\"\n"));
    assert!(text.contains("\ntok/https://cdn.example.com/v/360.m3u8\n"));
    assert!(text.contains("\ntok/v/720.m3u8\n"));
    assert!(text.contains("#EXT-X-INDEPENDENT-SEGMENTS\n"));
    assert!(text.contains("#EXT-X-MEDIA:TYPE=AUDIO,URI=\"audio/en.m3u8\",GROUP-ID=\"aac\""));
}

#[test]
fn media_playlist_is_refused() {
    let media = "#EXTM3U\n#EXT-X-TARGETDURATION:10\n#EXTINF:9.0,\nseg0.ts\n#EXT-X-ENDLIST\n";
    assert_eq!(decode(media.as_bytes()).err(), Some(PlaylistError::NotMaster));
    assert_eq!(rewrite_body(media.as_bytes(), "abc123"), Err(PlaylistError::NotMaster));
}

#[test]
fn text_without_a_telling_tag_is_refused() {
    assert_eq!(decode(b"").err(), Some(PlaylistError::NotMaster));
    assert_eq!(decode(b"#EXTM3U\n#EXT-X-VERSION:3\n").err(), Some(PlaylistError::NotMaster));
    assert_eq!(decode(b"<html>not found</html>\n").err(), Some(PlaylistError::NotMaster));
}
