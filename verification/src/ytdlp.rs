//! The external-tool adapter: the resolved-executable state, the exact
//! argument lists the tool is invoked with, and the verified parsers that turn
//! its output into typed results or errors. Running the process itself is
//! input/output and lives with the caller; everything decided here is proved.

use vstd::prelude::*;

use crate::download_manager::view_opt_string;
use crate::errors::DownloadError;
use crate::json::{json_get_str, json_get_u64, json_parse, json_parses, json_strs_of, json_u64s_of};
use crate::text::{contains_seq, contains_str, find_char_from, find_str, first_index_of,
    first_match_index, split_lines, split_lines_exec, trim_spec, trim_str};

verus! {

/// Video metadata extracted from the tool's structured output. Durations are
/// whole seconds: the queue holds no fractional values.
#[derive(Clone, Debug)]
pub struct VideoMetadata {
    pub title: String,
    pub duration: Option<u64>,
    pub uploader: Option<String>,
    pub upload_date: Option<String>,
    pub view_count: Option<u64>,
    pub thumbnail: Option<String>,
}

pub ghost struct MetaModel {
    pub title: Seq<char>,
    pub duration: Option<u64>,
    pub uploader: Option<Seq<char>>,
    pub upload_date: Option<Seq<char>>,
    pub view_count: Option<u64>,
    pub thumbnail: Option<Seq<char>>,
}

impl View for VideoMetadata {
    type V = MetaModel;

    open spec fn view(&self) -> MetaModel {
        MetaModel {
            title: self.title@,
            duration: self.duration,
            uploader: view_opt_string(self.uploader),
            upload_date: view_opt_string(self.upload_date),
            view_count: self.view_count,
            thumbnail: view_opt_string(self.thumbnail),
        }
    }
}

/// What one finished tool invocation handed back: whether it exited with
/// status zero, and its captured standard output and error text.
pub struct ProcessOutput {
    pub success: bool,
    pub stdout: String,
    pub stderr: String,
}

/// The adapter: holds the executable path once initialization resolves it
/// (write once, read thereafter).
pub struct YtDlp {
    executable_path: Option<String>,
}

impl View for YtDlp {
    type V = Option<Seq<char>>;

    closed spec fn view(&self) -> Option<Seq<char>> {
        view_opt_string(self.executable_path)
    }
}

impl YtDlp {
    /// A fresh adapter with no executable resolved yet.
    pub fn new() -> (r: Self)
        ensures
            r@ is None,
    {
        YtDlp { executable_path: None }
    }

    /// True exactly when initialization has resolved an executable path.
    pub fn is_available(&self) -> (r: bool)
        ensures
            r == (self@ is Some),
    {
        self.executable_path.is_some()
    }

    /// Record one search-path lookup. An already resolved path is kept, so
    /// repeated initialization short-circuits; otherwise the found path, if
    /// any, is stored. Returns whether the adapter is resolved afterwards.
    pub fn note_lookup(&mut self, found: Option<String>) -> (resolved: bool)
        ensures
            old(self)@ is Some ==> final(self)@ == old(self)@ && resolved,
            old(self)@ is None ==> final(self)@ == view_opt_string(found) && resolved == (
            found is Some),
    {
        if self.executable_path.is_some() {
            return true;
        }
        match found {
            Some(p) => {
                self.executable_path = Some(p);
                true
            },
            None => false,
        }
    }

    /// The outcome initialization reports: fine once resolved, else the tool
    /// is unavailable.
    pub fn init_outcome(&self) -> (r: Result<(), DownloadError>)
        ensures
            r is Ok <==> self@ is Some,
            r matches Err(e) ==> e is ToolUnavailable,
    {
        if self.executable_path.is_some() {
            Ok(())
        } else {
            Err(DownloadError::ToolUnavailable)
        }
    }

    fn executable(&self) -> (r: Result<String, DownloadError>)
        ensures
            r is Ok <==> self@ is Some,
            r matches Ok(p) ==> self@ == Some(p@),
            r matches Err(e) ==> e is ToolUnavailable,
    {
        match &self.executable_path {
            Some(p) => Ok(p.clone()),
            None => Err(DownloadError::ToolUnavailable),
        }
    }

    /// The invocation that probes metadata: a structured dump, no download.
    /// With no executable resolved it fails with `ToolUnavailable` and hands
    /// back nothing that could be spawned.
    pub fn build_metadata_args(&self, url: &str) -> (r: Result<Vec<String>, DownloadError>)
        ensures
            r is Ok <==> self@ is Some,
            r matches Ok(args) ==> args@.len() == 4 && Some(args@[0]@) == self@ && args@[1]@
                == "--dump-json"@ && args@[2]@ == "--no-download"@ && args@[3]@ == url@,
            r matches Err(e) ==> e is ToolUnavailable,
    {
        let exe = match self.executable() {
            Ok(p) => p,
            Err(e) => {
                return Err(e);
            },
        };
        let mut args: Vec<String> = Vec::new();
        args.push(exe);
        args.push(String::from_str("--dump-json"));
        args.push(String::from_str("--no-download"));
        args.push(String::from_str(url));
        Ok(args)
    }

    /// The invocation that lists a video's formats.
    pub fn build_formats_args(&self, url: &str) -> (r: Result<Vec<String>, DownloadError>)
        ensures
            r is Ok <==> self@ is Some,
            r matches Ok(args) ==> args@.len() == 3 && Some(args@[0]@) == self@ && args@[1]@
                == "--list-formats"@ && args@[2]@ == url@,
            r matches Err(e) ==> e is ToolUnavailable,
    {
        let exe = match self.executable() {
            Ok(p) => p,
            Err(e) => {
                return Err(e);
            },
        };
        let mut args: Vec<String> = Vec::new();
        args.push(exe);
        args.push(String::from_str("--list-formats"));
        args.push(String::from_str(url));
        Ok(args)
    }

    /// The invocation that performs a download: a quality selector built from
    /// the requested resolution, an output template under the given
    /// directory, and a fixed container-remux target. With no executable
    /// resolved it fails with `ToolUnavailable` and hands back nothing that
    /// could be spawned.
    pub fn build_download_args(&self, url: &str, output_dir: &str, resolution: &str) -> (r: Result<
        Vec<String>,
        DownloadError,
    >)
        ensures
            r is Ok <==> self@ is Some,
            r matches Ok(args) ==> args@.len() == 8 && Some(args@[0]@) == self@ && args@[1]@
                == "--format"@ && args@[2]@ == format_selector_spec(resolution@) && args@[3]@
                == "--output"@ && args@[4]@ == output_template_spec(output_dir@) && args@[5]@
                == "--merge-output-format"@ && args@[6]@ == "mp4"@ && args@[7]@ == url@,
            r matches Err(e) ==> e is ToolUnavailable,
    {
        let exe = match self.executable() {
            Ok(p) => p,
            Err(e) => {
                return Err(e);
            },
        };
        let mut args: Vec<String> = Vec::new();
        args.push(exe);
        args.push(String::from_str("--format"));
        args.push(build_format_selector(resolution));
        args.push(String::from_str("--output"));
        args.push(String::from_str(output_dir).concat("%(title)s.%(ext)s"));
        args.push(String::from_str("--merge-output-format"));
        args.push(String::from_str("mp4"));
        args.push(String::from_str(url));
        Ok(args)
    }
}

impl YtDlp {
    /// The filename named on a destination line of the tool's output: the
    /// trimmed text after the first destination marker.
    pub fn extract_filename_from_output(&self, line: &str) -> (r: Option<String>)
        ensures
            match r {
                Some(f) => extracted_filename(line@) == Some(f@),
                None => extracted_filename(line@) is None,
            },
    {
        match find_str(line, "Destination: ") {
            Some(i) => {
                let llen = line.unicode_len();
                let marker: &str = "Destination: ";
                let mlen = marker.unicode_len();
                let rest = line.substring_char(i + mlen, llen);
                proof {
                    assert(rest@ =~= line@.subrange(
                        i + destination_marker().len(),
                        line@.len() as int,
                    ));
                }
                Some(trim_str(rest))
            },
            None => None,
        }
    }

    /// Turn one finished metadata invocation into the typed result: on exit
    /// status zero the structured output is parsed, missing optional fields
    /// tolerated and a missing title defaulted; a non-zero exit or unparsable
    /// output is a metadata failure carrying its detail.
    pub fn metadata_outcome(&self, run: &ProcessOutput) -> (r: Result<VideoMetadata, DownloadError>)
        ensures
            r is Ok <==> run.success && json_parses(run.stdout@),
            r matches Ok(m) ==> m@ == meta_from_fields(
                json_strs_of(run.stdout@),
                json_u64s_of(run.stdout@),
            ),
            !run.success ==> (r matches Err(e) && e matches DownloadError::MetadataFetchFailed(d)
                && d@ == run.stderr@),
            run.success && !json_parses(run.stdout@) ==> (r matches Err(e) && e
                matches DownloadError::MetadataFetchFailed(d) && d@ == metadata_parse_failure()),
    {
        if !run.success {
            return Err(DownloadError::MetadataFetchFailed(run.stderr.clone()));
        }
        match json_parse(run.stdout.as_str()) {
            None => Err(
                DownloadError::MetadataFetchFailed(String::from_str("unparsable metadata output")),
            ),
            Some(v) => {
                let title = match json_get_str(&v, "title") {
                    Some(t) => t,
                    None => String::from_str("Unknown Title"),
                };
                Ok(
                    VideoMetadata {
                        title,
                        duration: json_get_u64(&v, "duration"),
                        uploader: json_get_str(&v, "uploader"),
                        upload_date: json_get_str(&v, "upload_date"),
                        view_count: json_get_u64(&v, "view_count"),
                        thumbnail: json_get_str(&v, "thumbnail"),
                    },
                )
            },
        }
    }

    /// Turn one finished download invocation into the typed result: on exit
    /// status zero the output lines are scanned for a destination or
    /// already-downloaded marker to recover the produced filename, and the
    /// generic success text stands in when no line names one; a non-zero exit
    /// is a download failure carrying the captured error text.
    pub fn download_outcome(&self, run: &ProcessOutput) -> (r: Result<String, DownloadError>)
        ensures
            r is Ok <==> run.success,
            r matches Ok(f) ==> f@ == scan_lines(split_lines(run.stdout@)),
            r matches Err(e) ==> (e matches DownloadError::DownloadFailed(d) && d@ == run.stderr@),
    {
        if !run.success {
            return Err(DownloadError::DownloadFailed(run.stderr.clone()));
        }
        let lines = split_lines_exec(run.stdout.as_str());
        let ghost t = lines@.map_values(|l: String| l@);
        proof {
            assert(t =~= split_lines(run.stdout@));
            assert(t.subrange(0, t.len() as int) =~= t);
        }
        let n = lines.len();
        let mut i: usize = 0;
        while i < n
            invariant
                i <= n,
                n == lines@.len(),
                run.success,
                t == lines@.map_values(|l: String| l@),
                t == split_lines(run.stdout@),
                scan_lines(t) == scan_lines(t.subrange(i as int, n as int)),
            decreases n - i,
        {
            proof {
                let rest = t.subrange(i as int, n as int);
                assert(rest[0] == t[i as int]);
                assert(rest.subrange(1, rest.len() as int) =~= t.subrange(i as int + 1, n as int));
            }
            let line = &lines[i];
            proof {
                assert(line@ == t[i as int]);
            }
            let marked = contains_str(line.as_str(), "has already been downloaded") || contains_str(
                line.as_str(),
                "Destination:",
            );
            if marked {
                match self.extract_filename_from_output(line.as_str()) {
                    Some(f) => {
                        return Ok(f);
                    },
                    None => {},
                }
            }
            i = i + 1;
        }
        proof {
            assert(t.subrange(i as int, n as int) =~= Seq::<Seq<char>>::empty());
        }
        Ok(String::from_str("Download completed"))
    }

    /// Turn one finished format-listing invocation into the typed result: on
    /// exit status zero, the output lines that name a known container, in
    /// order; a non-zero exit is a probe failure carrying the captured error
    /// text.
    pub fn formats_outcome(&self, run: &ProcessOutput) -> (r: Result<Vec<String>, DownloadError>)
        ensures
            r is Ok <==> run.success,
            r matches Ok(v) ==> ({
                let kept = kept_format_lines(run.stdout@);
                v@.len() == kept.len() && (forall|k: int|
                    0 <= k < kept.len() ==> (#[trigger] v@[k])@ == kept[k])
            }),
            r matches Err(e) ==> (e matches DownloadError::MetadataFetchFailed(d) && d@
                == run.stderr@),
    {
        if !run.success {
            return Err(DownloadError::MetadataFetchFailed(run.stderr.clone()));
        }
        let lines = split_lines_exec(run.stdout.as_str());
        let ghost t = lines@.map_values(|l: String| l@);
        proof {
            assert(t =~= split_lines(run.stdout@));
            assert(t.subrange(0, 0) =~= Seq::<Seq<char>>::empty());
            assert(Seq::<Seq<char>>::empty().filter(|l: Seq<char>| is_format_line(l))
                =~= Seq::<Seq<char>>::empty()) by {
                reveal(Seq::filter);
            }
        }
        let n = lines.len();
        let mut kept: Vec<String> = Vec::new();
        let mut i: usize = 0;
        while i < n
            invariant
                i <= n,
                n == lines@.len(),
                t == lines@.map_values(|l: String| l@),
                kept@.map_values(|l: String| l@) =~= t.subrange(0, i as int).filter(
                    |l: Seq<char>| is_format_line(l),
                ),
            decreases n - i,
        {
            proof {
                reveal(Seq::filter);
                let p1 = t.subrange(0, i as int + 1);
                assert(p1.drop_last() =~= t.subrange(0, i as int));
                assert(p1.last() == t[i as int]);
            }
            let line = &lines[i];
            let is_kept = contains_str(line.as_str(), "mp4") || contains_str(line.as_str(), "webm");
            if is_kept {
                kept.push(line.clone());
            }
            i = i + 1;
        }
        proof {
            assert(t.subrange(0, n as int) =~= t);
        }
        Ok(kept)
    }
}

/// The marker introducing the produced file's path in the tool's output.
pub open spec fn destination_marker() -> Seq<char> {
    "Destination: "@
}

/// The filename a destination line names, if the line holds the marker.
pub open spec fn extracted_filename(line: Seq<char>) -> Option<Seq<char>> {
    if contains_seq(line, destination_marker()) {
        let start = first_match_index(line, destination_marker()) + destination_marker().len();
        if 0 <= start <= line.len() {
            Some(trim_spec(line.subrange(start, line.len() as int)))
        } else {
            None
        }
    } else {
        None
    }
}

/// A line announcing where the download landed, or that it already had.
pub open spec fn is_marker_line(l: Seq<char>) -> bool {
    contains_seq(l, "has already been downloaded"@) || contains_seq(l, "Destination:"@)
}

/// The generic text standing in when no output line names the produced file.
pub open spec fn generic_success_text() -> Seq<char> {
    "Download completed"@
}

/// What scanning the output lines yields: the filename of the first marker
/// line that names one, or the generic success text.
pub open spec fn scan_lines(lines: Seq<Seq<char>>) -> Seq<char>
    decreases lines.len(),
{
    if lines.len() == 0 {
        generic_success_text()
    } else if is_marker_line(lines[0]) && extracted_filename(lines[0]) is Some {
        extracted_filename(lines[0])->0
    } else {
        scan_lines(lines.subrange(1, lines.len() as int))
    }
}

/// A format-listing line that names a known container.
pub open spec fn is_format_line(l: Seq<char>) -> bool {
    contains_seq(l, "mp4"@) || contains_seq(l, "webm"@)
}

/// The format-listing lines that survive the container filter, in order.
pub open spec fn kept_format_lines(stdout: Seq<char>) -> Seq<Seq<char>> {
    split_lines(stdout).filter(|l: Seq<char>| is_format_line(l))
}

/// The text reported when the metadata dump does not parse.
pub open spec fn metadata_parse_failure() -> Seq<char> {
    "unparsable metadata output"@
}

/// The metadata record a parsed dump yields: the title defaulted when absent,
/// every other field optional.
pub open spec fn meta_from_fields(strs: Map<Seq<char>, Seq<char>>, nums: Map<Seq<char>, u64>) -> MetaModel {
    MetaModel {
        title: if strs.contains_key("title"@) {
            strs["title"@]
        } else {
            "Unknown Title"@
        },
        duration: if nums.contains_key("duration"@) {
            Some(nums["duration"@])
        } else {
            None
        },
        uploader: if strs.contains_key("uploader"@) {
            Some(strs["uploader"@])
        } else {
            None
        },
        upload_date: if strs.contains_key("upload_date"@) {
            Some(strs["upload_date"@])
        } else {
            None
        },
        view_count: if nums.contains_key("view_count"@) {
            Some(nums["view_count"@])
        } else {
            None
        },
        thumbnail: if strs.contains_key("thumbnail"@) {
            Some(strs["thumbnail"@])
        } else {
            None
        },
    }
}

impl Default for YtDlp {
    fn default() -> (r: Self)
        ensures
            r@ is None,
    {
        Self::new()
    }
}

/// The executable name looked up on the search path.
pub fn tool_name() -> (r: &'static str)
    ensures
        r@ == "yt-dlp"@,
{
    "yt-dlp"
}

/// The package-manager invocation that installs the tool when the lookup
/// found nothing.
pub fn install_args() -> (r: Vec<String>)
    ensures
        r@.len() == 3,
        r@[0]@ == "pip"@,
        r@[1]@ == "install"@,
        r@[2]@ == "yt-dlp"@,
{
    let mut args: Vec<String> = Vec::new();
    args.push(String::from_str("pip"));
    args.push(String::from_str("install"));
    args.push(String::from_str("yt-dlp"));
    args
}

/// The vertical-pixel component of a `WxH` resolution: the text between the
/// first `'x'` and the next one or the end; `1080` when there is no `'x'`.
pub open spec fn selector_height(r: Seq<char>) -> Seq<char> {
    let i = first_index_of(r, 'x');
    if !(0 <= i < r.len()) {
        "1080"@
    } else {
        let rest = r.subrange(i + 1, r.len() as int);
        let j = first_index_of(rest, 'x');
        if 0 <= j <= rest.len() {
            rest.subrange(0, j)
        } else {
            rest
        }
    }
}

/// The quality selector handed to the tool.
pub open spec fn format_selector_spec(resolution: Seq<char>) -> Seq<char> {
    "best[height<="@ + selector_height(resolution) + "]"@
}

/// The output template handed to the tool: the directory followed by the
/// title-and-extension pattern.
pub open spec fn output_template_spec(output_dir: Seq<char>) -> Seq<char> {
    output_dir + "%(title)s.%(ext)s"@
}

/// Build the quality selector for the requested resolution, falling back to
/// 1080 vertical pixels when the resolution has no `'x'`.
pub fn build_format_selector(resolution: &str) -> (r: String)
    ensures
        r@ == format_selector_spec(resolution@),
{
    let rlen = resolution.unicode_len();
    proof {
        assert(resolution@.subrange(0, rlen as int) =~= resolution@);
    }
    let i = find_char_from(resolution, rlen, 0, 'x');
    let head = String::from_str("best[height<=");
    let with_height = if i == rlen {
        head.concat("1080")
    } else {
        let j = find_char_from(resolution, rlen, i + 1, 'x');
        let comp = resolution.substring_char(i + 1, j);
        proof {
            let rest = resolution@.subrange(i as int + 1, rlen as int);
            assert(rest.subrange(0, j - (i + 1)) =~= resolution@.subrange(i as int + 1, j as int));
        }
        head.concat(comp)
    };
    with_height.concat("]")
}

} // verus!
