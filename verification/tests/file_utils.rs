use ytdl_mini::file_utils::{get_file_extension, sanitize_filename};

#[test]
fn test_sanitize_filename() {
    assert_eq!(sanitize_filename("Normal Title"), "Normal Title");
    assert_eq!(sanitize_filename("Title/With\\Bad:Chars"), "Title_With_Bad_Chars");
    assert_eq!(sanitize_filename(""), "video");
    assert_eq!(sanitize_filename("   "), "video");
}

#[test]
fn test_get_file_extension() {
    assert_eq!(get_file_extension("mp4"), "mp4");
    assert_eq!(get_file_extension("MP4"), "mp4");
    assert_eq!(get_file_extension("unknown"), "mp4");
}

#[test]
fn test_sanitize_replaces_all_reserved_characters() {
    assert_eq!(sanitize_filename("a*b?c\"d<e>f|g"), "a_b_c_d_e_f_g");
    assert_eq!(sanitize_filename("tab\there"), "tab_here");
}

#[test]
fn test_sanitize_trims_and_limits_length() {
    assert_eq!(sanitize_filename("  padded  "), "padded");
    let long = "a".repeat(300);
    let cleaned = sanitize_filename(&long);
    assert_eq!(cleaned.chars().count(), 200);
}

#[test]
fn test_get_file_extension_known_containers() {
    assert_eq!(get_file_extension("webm"), "webm");
    assert_eq!(get_file_extension("MKV"), "mkv");
    assert_eq!(get_file_extension("avi"), "avi");
    assert_eq!(get_file_extension("mov"), "mov");
}
