use dlna_cast::media::{escape_attribute, media_type_token};
use dlna_cast::MediaDescriptor;

#[test]
fn token_is_the_lowercase_extension() {
    assert_eq!(media_type_token("http://h/movie.mkv"), "mkv");
    assert_eq!(media_type_token("http://h/movie.MKV"), "mkv");
    assert_eq!(media_type_token("https://www.w3schools.com/html/movie.mp4"), "mp4");
    assert_eq!(media_type_token("http://h/a.b/clip.tar.WebM"), "webm");
}

#[test]
fn token_ignores_query_and_fragment() {
    assert_eq!(media_type_token("http://h/movie.mkv?token=a.b"), "mkv");
    assert_eq!(media_type_token("http://h/movie.avi#t=1.5"), "avi");
    assert_eq!(media_type_token("http://h/movie.avi?x=/y.z#frag"), "avi");
}

#[test]
fn token_is_empty_without_an_extension() {
    assert_eq!(media_type_token(""), "");
    assert_eq!(media_type_token("http://h/movie"), "");
    assert_eq!(media_type_token("http://h.example/dir.d/"), "");
    assert_eq!(media_type_token("http://h.example/dir.d/movie"), "");
    assert_eq!(media_type_token("http://h/movie."), "");
    assert_eq!(media_type_token("?a.b"), "");
}

#[test]
fn token_keeps_what_is_not_an_ascii_capital() {
    assert_eq!(media_type_token("http://h/a.Mp4-É_Z"), "mp4-É_z");
}

#[test]
fn escaping_replaces_the_five_characters() {
    assert_eq!(escape_attribute("a<b>c&d\"e'f"), "a&lt;b&gt;c&amp;d&quot;e&apos;f");
    assert_eq!(escape_attribute("&&"), "&amp;&amp;");
    assert_eq!(escape_attribute("&lt;"), "&amp;lt;");
}

#[test]
fn escaping_keeps_plain_text() {
    assert_eq!(escape_attribute(""), "");
    assert_eq!(escape_attribute("video/mkv: é\n"), "video/mkv: é\n");
}

#[test]
fn descriptor_from_url() {
    let media = MediaDescriptor::from_url("http://h/movie.mkv");
    assert_eq!(
        media,
        MediaDescriptor {
            url: "http://h/movie.mkv".to_string(),
            media_type: "mkv".to_string(),
            subtitle_url: None,
            subtitle_type: None,
        }
    );
    assert_eq!(media.subtitle_url(), "http://h/movie.mkv");
    assert_eq!(media.subtitle_type(), "mkv");
    assert_eq!(media.clone(), media);
}

#[test]
fn descriptor_with_subtitle() {
    let media = MediaDescriptor::from_url("http://h/movie.mkv").with_subtitle("http://h/movie.srt", "srt");
    assert_eq!(media.url, "http://h/movie.mkv");
    assert_eq!(media.media_type, "mkv");
    assert_eq!(media.subtitle_url(), "http://h/movie.srt");
    assert_eq!(media.subtitle_type(), "srt");
}

#[test]
fn metadata_names_the_video_type() {
    let media = MediaDescriptor::from_url("http://h/movie.mkv");
    let metadata = media.metadata();
    assert!(metadata.contains("protocolInfo=\"http-get:*:video/mkv:*\""));
    assert_eq!(
        metadata,
        "<DIDL-Lite xmlns=\"urn:schemas-upnp-org:metadata-1-0/DIDL-Lite/\" xmlns:dc=\"http://purl.org/dc/elements/1.1/\" xmlns:upnp=\"urn:schemas-upnp-org:metadata-1-0/upnp/\"><item id=\"0\" parentID=\"-1\" restricted=\"1\"><dc:title>Video</dc:title><upnp:class>object.item.videoItem</upnp:class><res protocolInfo=\"http-get:*:video/mkv:*\">http://h/movie.mkv</res><res protocolInfo=\"http-get:*:text/mkv:*\">http://h/movie.mkv</res></item></DIDL-Lite>"
    );
}

#[test]
fn metadata_names_the_subtitle() {
    let media = MediaDescriptor::from_url("http://h/movie.mp4").with_subtitle("http://h/s.srt", "srt");
    let metadata = media.metadata();
    assert!(metadata.contains("<res protocolInfo=\"http-get:*:video/mp4:*\">http://h/movie.mp4</res>"));
    assert!(metadata.contains("<res protocolInfo=\"http-get:*:text/srt:*\">http://h/s.srt</res>"));
}

#[test]
fn set_uri_payload_holds_address_and_escaped_metadata() {
    let media = MediaDescriptor::from_url("http://h/movie.mkv");
    let payload = media.set_uri_payload();
    assert_eq!(
        payload,
        format!(
            "\n            <InstanceID>0</InstanceID>\n            <CurrentURI>http://h/movie.mkv</CurrentURI>\n            <CurrentURIMetaData>{}</CurrentURIMetaData>\n            ",
            escape_attribute(&media.metadata())
        )
    );
    assert!(payload.contains("&lt;res protocolInfo=&quot;http-get:*:video/mkv:*&quot;&gt;http://h/movie.mkv&lt;/res&gt;"));
    let inner = payload
        .split("<CurrentURIMetaData>")
        .nth(1)
        .unwrap()
        .split("</CurrentURIMetaData>")
        .next()
        .unwrap();
    assert!(!inner.contains('<') && !inner.contains('>') && !inner.contains('"') && !inner.contains('\''));
}
