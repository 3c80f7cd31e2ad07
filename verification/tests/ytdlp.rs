use ytdl_mini::errors::DownloadError;
use ytdl_mini::ytdlp::{install_args, tool_name, ProcessOutput, YtDlp};

fn ok_run(stdout: &str) -> ProcessOutput {
    ProcessOutput { success: true, stdout: stdout.to_string(), stderr: String::new() }
}

fn failed_run(stderr: &str) -> ProcessOutput {
    ProcessOutput { success: false, stdout: String::new(), stderr: stderr.to_string() }
}

#[test]
fn test_unresolved_tool_yields_tool_unavailable_and_nothing_to_spawn() {
    let y = YtDlp::new();
    assert!(!y.is_available());
    assert!(matches!(y.init_outcome(), Err(DownloadError::ToolUnavailable)));
    assert!(matches!(
        y.build_download_args("https://youtu.be/a", "/tmp/", "1920x1080"),
        Err(DownloadError::ToolUnavailable)
    ));
    assert!(matches!(
        y.build_metadata_args("https://youtu.be/a"),
        Err(DownloadError::ToolUnavailable)
    ));
    assert!(matches!(
        y.build_formats_args("https://youtu.be/a"),
        Err(DownloadError::ToolUnavailable)
    ));
}

#[test]
fn test_note_lookup_resolves_once_and_short_circuits() {
    let mut y = YtDlp::new();
    assert!(!y.note_lookup(None));
    assert!(!y.is_available());
    assert!(y.note_lookup(Some("/usr/bin/yt-dlp".to_string())));
    assert!(y.is_available());
    assert!(y.init_outcome().is_ok());
    // a later lookup must not overwrite the resolved path
    assert!(y.note_lookup(Some("/other/yt-dlp".to_string())));
    let args = y.build_metadata_args("u").unwrap();
    assert_eq!(args[0], "/usr/bin/yt-dlp");
}

#[test]
fn test_metadata_args_shape() {
    let mut y = YtDlp::new();
    y.note_lookup(Some("yt-dlp".to_string()));
    let args = y.build_metadata_args("https://youtu.be/abc").unwrap();
    assert_eq!(args, vec!["yt-dlp", "--dump-json", "--no-download", "https://youtu.be/abc"]);
}

#[test]
fn test_download_args_shape_and_selector() {
    let mut y = YtDlp::new();
    y.note_lookup(Some("yt-dlp".to_string()));
    let args = y.build_download_args("https://youtu.be/abc", "/downloads/", "1920x1080").unwrap();
    assert_eq!(
        args,
        vec![
            "yt-dlp",
            "--format",
            "best[height<=1080]",
            "--output",
            "/downloads/%(title)s.%(ext)s",
            "--merge-output-format",
            "mp4",
            "https://youtu.be/abc"
        ]
    );
}

#[test]
fn test_selector_falls_back_without_separator() {
    let mut y = YtDlp::new();
    y.note_lookup(Some("yt-dlp".to_string()));
    let args = y.build_download_args("u", "d/", "bogus").unwrap();
    assert_eq!(args[2], "best[height<=1080]");
}

#[test]
fn test_formats_args_shape() {
    let mut y = YtDlp::new();
    y.note_lookup(Some("yt-dlp".to_string()));
    let args = y.build_formats_args("u").unwrap();
    assert_eq!(args, vec!["yt-dlp", "--list-formats", "u"]);
}

#[test]
fn test_extract_filename_from_output() {
    let y = YtDlp::new();
    assert_eq!(
        y.extract_filename_from_output("[download] Destination: /tmp/My Video.mp4"),
        Some("/tmp/My Video.mp4".to_string())
    );
    assert_eq!(y.extract_filename_from_output("[download] 42.0% of 10MiB"), None);
}

#[test]
fn test_download_outcome_recovers_filename() {
    let y = YtDlp::new();
    let run = ok_run("[info] fetching\n[download] Destination: /d/clip.mp4\n[download] done\n");
    assert_eq!(y.download_outcome(&run).unwrap(), "/d/clip.mp4");
}

#[test]
fn test_download_outcome_generic_success_without_marker() {
    let y = YtDlp::new();
    let run = ok_run("[info] nothing of note\n");
    assert_eq!(y.download_outcome(&run).unwrap(), "Download completed");
}

#[test]
fn test_download_outcome_failure_carries_stderr() {
    let y = YtDlp::new();
    let run = failed_run("ERROR: video unavailable");
    assert!(matches!(
        y.download_outcome(&run),
        Err(DownloadError::DownloadFailed(d)) if d == "ERROR: video unavailable"
    ));
}

#[test]
fn test_metadata_outcome_parses_fields() {
    let y = YtDlp::new();
    let run = ok_run(
        "{\"title\":\"A Song\",\"duration\":63,\"uploader\":\"Someone\",\"view_count\":12345}",
    );
    let m = y.metadata_outcome(&run).unwrap();
    assert_eq!(m.title, "A Song");
    assert_eq!(m.duration, Some(63));
    assert_eq!(m.uploader.as_deref(), Some("Someone"));
    assert_eq!(m.view_count, Some(12345));
    assert_eq!(m.upload_date, None);
    assert_eq!(m.thumbnail, None);
}

#[test]
fn test_metadata_outcome_defaults_missing_title() {
    let y = YtDlp::new();
    let m = y.metadata_outcome(&ok_run("{\"duration\":5}")).unwrap();
    assert_eq!(m.title, "Unknown Title");
}

#[test]
fn test_metadata_outcome_rejects_unparsable_output() {
    let y = YtDlp::new();
    assert!(matches!(
        y.metadata_outcome(&ok_run("not json at all")),
        Err(DownloadError::MetadataFetchFailed(d)) if d == "unparsable metadata output"
    ));
    assert!(matches!(
        y.metadata_outcome(&failed_run("boom")),
        Err(DownloadError::MetadataFetchFailed(d)) if d == "boom"
    ));
}

#[test]
fn test_formats_outcome_keeps_container_lines_in_order() {
    let y = YtDlp::new();
    let run = ok_run("header line\n137 mp4 1080p\n251 webm audio\n18 mp4 360p\nfooter\n");
    let v = y.formats_outcome(&run).unwrap();
    assert_eq!(v, vec!["137 mp4 1080p", "251 webm audio", "18 mp4 360p"]);
}

#[test]
fn test_extracted_filename_is_trimmed() {
    let y = YtDlp::new();
    assert_eq!(
        y.extract_filename_from_output("[download] Destination: /tmp/clip.mp4   "),
        Some("/tmp/clip.mp4".to_string())
    );
}

#[test]
fn test_tool_and_install_invocations() {
    assert_eq!(tool_name(), "yt-dlp");
    assert_eq!(install_args(), vec!["pip", "install", "yt-dlp"]);
}
