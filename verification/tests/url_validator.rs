use ytdl_mini::url_validator::{extract_video_id, is_valid_youtube_url};

#[test]
fn test_valid_youtube_urls() {
    assert!(is_valid_youtube_url("https://www.youtube.com/watch?v=dQw4w9WgXcQ"));
    assert!(is_valid_youtube_url("https://youtube.com/watch?v=dQw4w9WgXcQ"));
    assert!(is_valid_youtube_url("https://youtu.be/dQw4w9WgXcQ"));
    assert!(is_valid_youtube_url("https://m.youtube.com/watch?v=dQw4w9WgXcQ"));
}

#[test]
fn test_invalid_urls() {
    assert!(!is_valid_youtube_url("https://www.google.com"));
    assert!(!is_valid_youtube_url("not a url"));
    assert!(!is_valid_youtube_url(""));
}

#[test]
fn test_extract_video_id() {
    assert_eq!(
        extract_video_id("https://www.youtube.com/watch?v=dQw4w9WgXcQ"),
        Some("dQw4w9WgXcQ".to_string())
    );
    assert_eq!(
        extract_video_id("https://youtu.be/dQw4w9WgXcQ"),
        Some("dQw4w9WgXcQ".to_string())
    );
}

#[test]
fn test_extract_video_id_round_trip() {
    assert_eq!(extract_video_id("https://youtu.be/abc123"), Some("abc123".to_string()));
    assert_eq!(
        extract_video_id("https://www.youtube.com/watch?v=abc123"),
        Some("abc123".to_string())
    );
    assert_eq!(extract_video_id("https://example.com"), None);
}

#[test]
fn test_music_subdomain_validates_but_yields_no_id() {
    assert!(is_valid_youtube_url("https://music.youtube.com/watch?v=abc123"));
    assert_eq!(extract_video_id("https://music.youtube.com/watch?v=abc123"), None);
}
