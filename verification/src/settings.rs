//! The user-configurable settings record: default resolution, download
//! destination, and the concurrency ceiling. Persistence is the caller's;
//! the validation rules live here.

use vstd::prelude::*;

verus! {

/// Application settings. The download path is held as plain text; the caller
/// that loads settings supplies the platform's directory.
#[derive(Clone, Debug)]
pub struct Settings {
    /// Default video resolution, as a `WxH` string.
    pub default_resolution: String,
    /// Download destination directory.
    pub download_path: String,
    /// Maximum concurrent downloads.
    pub max_concurrent_downloads: usize,
}

pub ghost struct SettingsModel {
    pub default_resolution: Seq<char>,
    pub download_path: Seq<char>,
    pub max_concurrent_downloads: usize,
}

impl View for Settings {
    type V = SettingsModel;

    open spec fn view(&self) -> SettingsModel {
        SettingsModel {
            default_resolution: self.default_resolution@,
            download_path: self.download_path@,
            max_concurrent_downloads: self.max_concurrent_downloads,
        }
    }
}

#[derive(Clone, Debug)]
pub enum SettingsError {
    /// The resolution text is not of the `WxH` form.
    InvalidResolution,
    /// The download directory can neither be found nor created.
    InaccessiblePath,
}

/// How often a character occurs in the text.
pub open spec fn count_char(s: Seq<char>, c: char) -> nat
    decreases s.len(),
{
    if s.len() == 0 {
        0
    } else {
        count_char(s.drop_last(), c) + (if s.last() == c {
            1nat
        } else {
            0nat
        })
    }
}

/// A resolution is valid when it has exactly one `'x'` separating the two
/// components, as in `1920x1080`.
pub open spec fn valid_resolution(s: Seq<char>) -> bool {
    count_char(s, 'x') == 1
}

impl Default for Settings {
    /// The defaults: full HD, three concurrent downloads, and a download path
    /// left for the caller to fill in with the platform's directory.
    fn default() -> (r: Self)
        ensures
            r@.default_resolution == "1920x1080"@,
            r@.download_path == Seq::<char>::empty(),
            r@.max_concurrent_downloads == 3,
    {
        Settings {
            default_resolution: String::from_str("1920x1080"),
            download_path: String::new(),
            max_concurrent_downloads: 3,
        }
    }
}

impl Settings {
    /// Validate and update the resolution: rejected, and nothing changed,
    /// unless the text has the `WxH` form.
    pub fn set_resolution(&mut self, resolution: String) -> (r: Result<(), SettingsError>)
        ensures
            r is Ok <==> valid_resolution(resolution@),
            r is Ok ==> final(self)@ == (SettingsModel {
                default_resolution: resolution@,
                ..old(self)@
            }),
            r matches Err(e) ==> e is InvalidResolution && final(self)@ == old(self)@,
    {
        if resolution_is_valid(resolution.as_str()) {
            self.default_resolution = resolution;
            Ok(())
        } else {
            Err(SettingsError::InvalidResolution)
        }
    }

    /// Update the download path; the caller reports whether the directory
    /// exists or could be created, and an inaccessible path changes nothing.
    pub fn set_download_path(&mut self, path: String, accessible: bool) -> (r: Result<
        (),
        SettingsError,
    >)
        ensures
            r is Ok <==> accessible,
            r is Ok ==> final(self)@ == (SettingsModel { download_path: path@, ..old(self)@ }),
            r matches Err(e) ==> e is InaccessiblePath && final(self)@ == old(self)@,
    {
        if accessible {
            self.download_path = path;
            Ok(())
        } else {
            Err(SettingsError::InaccessiblePath)
        }
    }
}

/// Whether the text has exactly one `'x'`.
pub fn resolution_is_valid(s: &str) -> (r: bool)
    ensures
        r == valid_resolution(s@),
{
    let n = s.unicode_len();
    let mut seen: usize = 0;
    let mut i: usize = 0;
    proof {
        assert(s@.subrange(0, 0) =~= Seq::<char>::empty());
    }
    while i < n
        invariant
            i <= n,
            n == s@.len(),
            seen <= i,
            seen == count_char(s@.subrange(0, i as int), 'x'),
        decreases n - i,
    {
        proof {
            let p1 = s@.subrange(0, i as int + 1);
            assert(p1.drop_last() =~= s@.subrange(0, i as int));
            assert(p1.last() == s@[i as int]);
        }
        if s.get_char(i) == 'x' {
            seen = seen + 1;
        }
        i = i + 1;
    }
    proof {
        assert(s@.subrange(0, n as int) =~= s@);
    }
    seen == 1
}

} // verus!
