//! URL validation against the allow-list of source-service hosts, and video-id
//! extraction. Parsing itself is the `url` crate's; the decisions over the
//! parsed parts are verified here.

use vstd::prelude::*;

verus! {

/// What `url::Url::parse` followed by `Url::host_str` yields for the given
/// text: the URL's host, or none when the text does not parse as an absolute
/// URL or the URL has no host. A pure function of the text.
pub uninterp spec fn host_of(s: Seq<char>) -> Option<Seq<char>>;

/// What `url::Url::parse` followed by `Url::path_segments` yields: the
/// slash-separated segments of the path, or none when the text does not parse
/// or the URL cannot be a base.
pub uninterp spec fn path_segments_of(s: Seq<char>) -> Option<Seq<Seq<char>>>;

/// What `url::Url::parse` followed by `Url::query_pairs` yields: the query
/// decoded as form key/value pairs in order, or none when the text does not
/// parse.
pub uninterp spec fn query_pairs_of(s: Seq<char>) -> Option<Seq<(Seq<char>, Seq<char>)>>;

/// Relies on `url::Url::parse` and `Url::host_str`.
#[verifier::external_body]
fn url_host(s: &str) -> (r: Option<String>)
    ensures
        match r {
            Some(h) => host_of(s@) == Some(h@),
            None => host_of(s@) is None,
        },
{
    match url::Url::parse(s) {
        Ok(u) => u.host_str().map(|h| h.to_string()),
        Err(_) => None,
    }
}

/// Relies on `url::Url::parse` and `Url::path_segments`.
#[verifier::external_body]
fn url_path_segments(s: &str) -> (r: Option<Vec<String>>)
    ensures
        match r {
            Some(v) => path_segments_of(s@) matches Some(t) && v@.len() == t.len() && (forall|
                i: int,
            |
                0 <= i < t.len() ==> (#[trigger] v@[i])@ == t[i]),
            None => path_segments_of(s@) is None,
        },
{
    match url::Url::parse(s) {
        Ok(u) => u.path_segments().map(|it| it.map(|seg| seg.to_string()).collect()),
        Err(_) => None,
    }
}

/// Relies on `url::Url::parse` and `Url::query_pairs`.
#[verifier::external_body]
fn url_query_pairs(s: &str) -> (r: Option<Vec<(String, String)>>)
    ensures
        match r {
            Some(v) => query_pairs_of(s@) matches Some(t) && v@.len() == t.len() && (forall|
                i: int,
            |
                0 <= i < t.len() ==> (#[trigger] v@[i]).0@ == t[i].0 && v@[i].1@ == t[i].1),
            None => query_pairs_of(s@) is None,
        },
{
    match url::Url::parse(s) {
        Ok(u) => Some(u.query_pairs().map(|(k, v)| (k.into_owned(), v.into_owned())).collect()),
        Err(_) => None,
    }
}

/// The fixed allow-list: the bare domain, its `www.` prefix, the mobile and
/// music subdomains, and the short-link domain.
pub open spec fn allowed_host(h: Seq<char>) -> bool {
    h == "www.youtube.com"@ || h == "youtube.com"@ || h == "youtu.be"@ || h == "m.youtube.com"@
        || h == "music.youtube.com"@
}

/// The text parses as an absolute URL whose host is on the allow-list.
pub open spec fn valid_youtube_url(s: Seq<char>) -> bool {
    match host_of(s) {
        Some(h) => allowed_host(h),
        None => false,
    }
}

/// Validate that a URL names the source service: any parse failure or
/// unlisted host is rejected.
pub fn is_valid_youtube_url(url_str: &str) -> (r: bool)
    ensures
        r == valid_youtube_url(url_str@),
{
    match url_host(url_str) {
        Some(h) => {
            h == String::from_str("www.youtube.com") || h == String::from_str("youtube.com") || h
                == String::from_str("youtu.be") || h == String::from_str("m.youtube.com") || h
                == String::from_str("music.youtube.com")
        },
        None => false,
    }
}

/// The value of the first query pair whose key is `v`.
pub open spec fn first_v_value(pairs: Seq<(Seq<char>, Seq<char>)>) -> Option<Seq<char>>
    decreases pairs.len(),
{
    if pairs.len() == 0 {
        None
    } else if pairs[0].0 == "v"@ {
        Some(pairs[0].1)
    } else {
        first_v_value(pairs.subrange(1, pairs.len() as int))
    }
}

/// What `extract_video_id` returns: the first path segment for the short-link
/// domain, the `v` query parameter for the standard domains, absent otherwise.
pub open spec fn extracted_video_id(s: Seq<char>) -> Option<Seq<char>> {
    match host_of(s) {
        Some(h) => if h == "youtu.be"@ {
            match path_segments_of(s) {
                Some(segs) => if segs.len() > 0 {
                    Some(segs[0])
                } else {
                    None
                },
                None => None,
            }
        } else if h == "www.youtube.com"@ || h == "youtube.com"@ || h == "m.youtube.com"@ {
            match query_pairs_of(s) {
                Some(pairs) => first_v_value(pairs),
                None => None,
            }
        } else {
            None
        },
        None => None,
    }
}

/// Extract the video id from a URL of the source service.
pub fn extract_video_id(url_str: &str) -> (r: Option<String>)
    ensures
        match r {
            Some(v) => extracted_video_id(url_str@) == Some(v@),
            None => extracted_video_id(url_str@) is None,
        },
{
    let host = match url_host(url_str) {
        Some(h) => h,
        None => {
            return None;
        },
    };
    if host == String::from_str("youtu.be") {
        match url_path_segments(url_str) {
            Some(segs) => {
                if segs.len() > 0 {
                    proof {
                        let t = path_segments_of(url_str@)->0;
                        assert(segs@[0]@ == t[0]);
                    }
                    Some(segs[0].clone())
                } else {
                    None
                }
            },
            None => None,
        }
    } else if host == String::from_str("www.youtube.com") || host == String::from_str(
        "youtube.com",
    ) || host == String::from_str("m.youtube.com") {
        match url_query_pairs(url_str) {
            Some(pairs) => {
                proof {
                    let t = query_pairs_of(url_str@)->0;
                    assert(pairs@.map_values(|p: (String, String)| (p.0@, p.1@)) =~= t);
                }
                find_v_param(&pairs)
            },
            None => None,
        }
    } else {
        None
    }
}

fn find_v_param(pairs: &Vec<(String, String)>) -> (r: Option<String>)
    ensures
        ({
            let t = pairs@.map_values(|p: (String, String)| (p.0@, p.1@));
            match r {
                Some(v) => first_v_value(t) == Some(v@),
                None => first_v_value(t) is None,
            }
        }),
{
    let ghost t = pairs@.map_values(|p: (String, String)| (p.0@, p.1@));
    let n = pairs.len();
    proof {
        assert(t.subrange(0, n as int) =~= t);
    }
    let mut i: usize = 0;
    while i < n
        invariant
            i <= n,
            n == pairs@.len(),
            t == pairs@.map_values(|p: (String, String)| (p.0@, p.1@)),
            first_v_value(t) == first_v_value(t.subrange(i as int, n as int)),
        decreases n - i,
    {
        proof {
            let rest = t.subrange(i as int, n as int);
            assert(rest.subrange(1, rest.len() as int) =~= t.subrange(i as int + 1, n as int));
            assert(rest[0] == t[i as int]);
        }
        if pairs[i].0.as_str().unicode_len() == 1 && pairs[i].0.as_str().get_char(0) == 'v' {
            proof {
                assert(t[i as int].0 =~= "v"@) by {
                    reveal_strlit("v");
                }
            }
            return Some(pairs[i].1.clone());
        }
        proof {
            assert(t[i as int].0 != "v"@) by {
                reveal_strlit("v");
            }
        }
        i = i + 1;
    }
    proof {
        assert(t.subrange(i as int, n as int) =~= Seq::<(Seq<char>, Seq<char>)>::empty());
    }
    None
}

} // verus!
