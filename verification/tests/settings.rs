use ytdl_mini::errors::{normalize_process_error, DownloadError};
use ytdl_mini::settings::{Settings, SettingsError};

#[test]
fn test_default_settings() {
    let s = Settings::default();
    assert_eq!(s.default_resolution, "1920x1080");
    assert_eq!(s.download_path, "");
    assert_eq!(s.max_concurrent_downloads, 3);
}

#[test]
fn test_set_resolution_accepts_width_by_height() {
    let mut s = Settings::default();
    assert!(s.set_resolution("1280x720".to_string()).is_ok());
    assert_eq!(s.default_resolution, "1280x720");
}

#[test]
fn test_set_resolution_rejects_malformed_text() {
    let mut s = Settings::default();
    assert!(matches!(
        s.set_resolution("1080p".to_string()),
        Err(SettingsError::InvalidResolution)
    ));
    assert!(matches!(
        s.set_resolution("1x2x3".to_string()),
        Err(SettingsError::InvalidResolution)
    ));
    assert_eq!(s.default_resolution, "1920x1080");
}

#[test]
fn test_set_download_path_needs_accessible_directory() {
    let mut s = Settings::default();
    assert!(s.set_download_path("/tmp/media".to_string(), true).is_ok());
    assert_eq!(s.download_path, "/tmp/media");
    assert!(matches!(
        s.set_download_path("/nope".to_string(), false),
        Err(SettingsError::InaccessiblePath)
    ));
    assert_eq!(s.download_path, "/tmp/media");
}

#[test]
fn test_process_io_failures_surface_as_download_failures() {
    let e = normalize_process_error(DownloadError::ProcessIoFailed("pipe broke".to_string()));
    assert!(matches!(e, DownloadError::DownloadFailed(d) if d == "pipe broke"));
    let kept = normalize_process_error(DownloadError::InvalidUrl);
    assert!(matches!(kept, DownloadError::InvalidUrl));
}
