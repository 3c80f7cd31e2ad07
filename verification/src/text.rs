//! Verified character-level text helpers shared by the filename, URL and
//! tool-output modules: whitespace trimming and substring search.

use vstd::prelude::*;

verus! {

/// The characters `str::trim` strips: the Unicode `White_Space` set.
pub open spec fn is_space_char(c: char) -> bool {
    c == ' ' || c == '\t' || c == '\n' || c == '\r' || c == '\u{b}' || c == '\u{c}'
        || c == '\u{85}' || c == '\u{a0}' || c == '\u{1680}'
        || ('\u{2000}' <= c && c <= '\u{200a}') || c == '\u{2028}' || c == '\u{2029}'
        || c == '\u{202f}' || c == '\u{205f}' || c == '\u{3000}'
}

pub fn exec_is_space_char(c: char) -> (r: bool)
    ensures
        r == is_space_char(c),
{
    c == ' ' || c == '\t' || c == '\n' || c == '\r' || c == '\u{b}' || c == '\u{c}'
        || c == '\u{85}' || c == '\u{a0}' || c == '\u{1680}'
        || ('\u{2000}' <= c && c <= '\u{200a}') || c == '\u{2028}' || c == '\u{2029}'
        || c == '\u{202f}' || c == '\u{205f}' || c == '\u{3000}'
}

pub open spec fn trim_leading(s: Seq<char>) -> Seq<char>
    decreases s.len(),
{
    if s.len() > 0 && is_space_char(s[0]) {
        trim_leading(s.subrange(1, s.len() as int))
    } else {
        s
    }
}

pub open spec fn trim_trailing(s: Seq<char>) -> Seq<char>
    decreases s.len(),
{
    if s.len() > 0 && is_space_char(s[s.len() - 1]) {
        trim_trailing(s.subrange(0, s.len() - 1))
    } else {
        s
    }
}

/// What `str::trim` returns: the input without leading and trailing whitespace.
pub open spec fn trim_spec(s: Seq<char>) -> Seq<char> {
    trim_trailing(trim_leading(s))
}

/// Relies on `String::push`: appends one character to the string.
#[verifier::external_body]
pub fn push_char(s: &mut String, c: char)
    ensures
        final(s)@ == old(s)@.push(c),
{
    s.push(c)
}

/// Strips leading and trailing whitespace, as `str::trim` does.
pub fn trim_str(s: &str) -> (r: String)
    ensures
        r@ == trim_spec(s@),
{
    let n = s.unicode_len();
    proof {
        assert(s@.subrange(0, n as int) =~= s@);
    }
    let mut start: usize = 0;
    while start < n && exec_is_space_char(s.get_char(start))
        invariant
            start <= n,
            n == s@.len(),
            trim_leading(s@) == trim_leading(s@.subrange(start as int, n as int)),
        decreases n - start,
    {
        proof {
            let tail = s@.subrange(start as int, n as int);
            assert(tail.subrange(1, tail.len() as int) =~= s@.subrange(start + 1, n as int));
        }
        start = start + 1;
    }
    proof {
        assert(trim_leading(s@.subrange(start as int, n as int)) == s@.subrange(
            start as int,
            n as int,
        ));
    }
    let mut end: usize = n;
    while end > start && exec_is_space_char(s.get_char(end - 1))
        invariant
            start <= end <= n,
            n == s@.len(),
            trim_leading(s@) == s@.subrange(start as int, n as int),
            trim_trailing(s@.subrange(start as int, n as int)) == trim_trailing(
                s@.subrange(start as int, end as int),
            ),
        decreases end,
    {
        proof {
            let part = s@.subrange(start as int, end as int);
            assert(part.subrange(0, part.len() - 1) =~= s@.subrange(start as int, end - 1));
        }
        end = end - 1;
    }
    proof {
        assert(trim_trailing(s@.subrange(start as int, end as int)) == s@.subrange(
            start as int,
            end as int,
        ));
    }
    let piece = s.substring_char(start, end);
    String::from_str(piece)
}

/// The needle `n` occurs in `h` starting at position `i`.
pub open spec fn matches_at(h: Seq<char>, n: Seq<char>, i: int) -> bool {
    0 <= i && i + n.len() <= h.len() && h.subrange(i, i + n.len()) == n
}

/// The needle occurs somewhere in the haystack, as `str::contains` reports.
pub open spec fn contains_seq(h: Seq<char>, n: Seq<char>) -> bool {
    exists|i: int| matches_at(h, n, i)
}

fn matches_at_exec(h: &str, hlen: usize, n: &str, nlen: usize, i: usize) -> (r: bool)
    requires
        hlen == h@.len(),
        nlen == n@.len(),
        i + nlen <= hlen,
    ensures
        r == matches_at(h@, n@, i as int),
{
    let mut j: usize = 0;
    while j < nlen
        invariant
            j <= nlen,
            i + nlen <= hlen,
            hlen == h@.len(),
            nlen == n@.len(),
            forall|k: int| 0 <= k < j ==> h@[i + k] == n@[k],
        decreases nlen - j,
    {
        if h.get_char(i + j) != n.get_char(j) {
            proof {
                assert(h@.subrange(i as int, i + n@.len())[j as int] == h@[i + j]);
            }
            return false;
        }
        j = j + 1;
    }
    proof {
        assert(h@.subrange(i as int, i + n@.len()) =~= n@);
    }
    true
}

/// Position of the first occurrence of `n` in `h`, as `str::find` returns it.
pub fn find_str(h: &str, n: &str) -> (r: Option<usize>)
    ensures
        match r {
            Some(i) => matches_at(h@, n@, i as int) && i == first_match_index(h@, n@) && (forall|
                j: int,
            |
                0 <= j < i ==> !matches_at(h@, n@, j)),
            None => !contains_seq(h@, n@),
        },
{
    let hlen = h.unicode_len();
    let nlen = n.unicode_len();
    if nlen > hlen {
        return None;
    }
    let bound = hlen - nlen;
    let mut i: usize = 0;
    loop
        invariant_except_break
            hlen == h@.len(),
            nlen == n@.len(),
            nlen <= hlen,
            bound == hlen - nlen,
            i <= bound,
            forall|j: int| 0 <= j < i ==> !matches_at(h@, n@, j),
        ensures
            !contains_seq(h@, n@),
        decreases bound - i,
    {
        if matches_at_exec(h, hlen, n, nlen, i) {
            proof {
                lemma_first_match_index(h@, n@, i as int);
            }
            return Some(i);
        }
        if i == bound {
            proof {
                assert(forall|j: int| 0 <= j <= bound ==> !matches_at(h@, n@, j));
                assert(forall|j: int| j > bound ==> !matches_at(h@, n@, j)) by {
                    assert(forall|j: int| #[trigger] matches_at(h@, n@, j) ==> j + n@.len()
                        <= h@.len());
                }
            }
            break;
        }
        i = i + 1;
    }
    None
}

/// Whether the needle occurs in the haystack, as `str::contains` does.
pub fn contains_str(h: &str, n: &str) -> (r: bool)
    ensures
        r == contains_seq(h@, n@),
{
    match find_str(h, n) {
        Some(_) => true,
        None => false,
    }
}

/// Position of the first occurrence of the needle; meaningful only when the
/// haystack contains it.
pub open spec fn first_match_index(h: Seq<char>, n: Seq<char>) -> int
    decreases h.len(),
{
    if matches_at(h, n, 0) {
        0
    } else if h.len() == 0 {
        0
    } else {
        1 + first_match_index(h.subrange(1, h.len() as int), n)
    }
}

proof fn lemma_matches_at_shift(h: Seq<char>, n: Seq<char>, i: int)
    requires
        h.len() > 0,
        1 <= i,
    ensures
        matches_at(h, n, i) == matches_at(h.subrange(1, h.len() as int), n, i - 1),
{
    let t = h.subrange(1, h.len() as int);
    if 0 <= i && i + n.len() <= h.len() {
        assert(h.subrange(i, i + n.len()) =~= t.subrange(i - 1, i - 1 + n.len()));
    }
}

pub proof fn lemma_first_match_index(h: Seq<char>, n: Seq<char>, i: int)
    requires
        matches_at(h, n, i),
        forall|j: int| 0 <= j < i ==> !matches_at(h, n, j),
    ensures
        first_match_index(h, n) == i,
    decreases h.len(),
{
    if !matches_at(h, n, 0) {
        let t = h.subrange(1, h.len() as int);
        lemma_matches_at_shift(h, n, i);
        assert(forall|j: int| 0 <= j < i - 1 ==> !matches_at(t, n, j)) by {
            assert forall|j: int| 0 <= j < i - 1 implies !matches_at(t, n, j) by {
                lemma_matches_at_shift(h, n, j + 1);
            }
        }
        lemma_first_match_index(t, n, i - 1);
    }
}

/// Position of the first occurrence of the character, or the length when it
/// does not occur.
pub open spec fn first_index_of(s: Seq<char>, c: char) -> int
    decreases s.len(),
{
    if s.len() == 0 {
        0
    } else if s[0] == c {
        0
    } else {
        1 + first_index_of(s.subrange(1, s.len() as int), c)
    }
}

pub proof fn lemma_first_index_of(s: Seq<char>, c: char)
    ensures
        0 <= first_index_of(s, c) <= s.len(),
        first_index_of(s, c) < s.len() ==> s[first_index_of(s, c)] == c,
        forall|j: int| 0 <= j < first_index_of(s, c) ==> s[j] != c,
    decreases s.len(),
{
    if s.len() > 0 && s[0] != c {
        let t = s.subrange(1, s.len() as int);
        lemma_first_index_of(t, c);
        assert(forall|j: int| 1 <= j < s.len() ==> s[j] == t[j - 1]);
    }
}

/// Position of the first occurrence of the character at or after `from`, as
/// a search over the tail of the string.
pub fn find_char_from(s: &str, slen: usize, from: usize, c: char) -> (r: usize)
    requires
        slen == s@.len(),
        from <= slen,
    ensures
        from <= r <= slen,
        r - from == first_index_of(s@.subrange(from as int, slen as int), c),
        r < slen ==> s@[r as int] == c,
        forall|j: int| from <= j < r ==> s@[j] != c,
{
    let ghost tail = s@.subrange(from as int, slen as int);
    let mut i: usize = from;
    while i < slen
        invariant
            from <= i <= slen,
            slen == s@.len(),
            tail == s@.subrange(from as int, slen as int),
            first_index_of(tail, c) == (i - from) + first_index_of(
                s@.subrange(i as int, slen as int),
                c,
            ),
            forall|j: int| from <= j < i ==> s@[j] != c,
        decreases slen - i,
    {
        proof {
            let cur = s@.subrange(i as int, slen as int);
            assert(cur.subrange(1, cur.len() as int) =~= s@.subrange(i as int + 1, slen as int));
            assert(cur[0] == s@[i as int]);
        }
        if s.get_char(i) == c {
            proof {
                lemma_first_index_of(s@.subrange(i as int, slen as int), c);
            }
            return i;
        }
        i = i + 1;
    }
    proof {
        assert(s@.subrange(i as int, slen as int) =~= Seq::<char>::empty());
    }
    slen
}

/// The lines of the text, as `str::lines` splits them: separated by `'\n'`,
/// a trailing `'\r'` stripped from each, no entry for a final newline.
pub open spec fn split_lines(s: Seq<char>) -> Seq<Seq<char>>
    decreases s.len(),
{
    if s.len() == 0 {
        Seq::empty()
    } else {
        let i = first_index_of(s, '\n');
        let raw = s.subrange(0, i);
        let line = if raw.len() > 0 && raw.last() == '\r' {
            raw.drop_last()
        } else {
            raw
        };
        seq![line] + (if 0 <= i < s.len() {
            split_lines(s.subrange(i + 1, s.len() as int))
        } else {
            Seq::empty()
        })
    }
}

/// Split the text into lines, as `str::lines` does.
pub fn split_lines_exec(s: &str) -> (r: Vec<String>)
    ensures
        r@.len() == split_lines(s@).len(),
        forall|k: int| 0 <= k < r@.len() ==> (#[trigger] r@[k])@ == split_lines(s@)[k],
{
    let slen = s.unicode_len();
    let mut out: Vec<String> = Vec::new();
    proof {
        assert(s@.subrange(0, slen as int) =~= s@);
        assert(out@.map_values(|l: String| l@) =~= Seq::<Seq<char>>::empty());
    }
    let mut pos: usize = 0;
    while pos < slen
        invariant
            pos <= slen,
            slen == s@.len(),
            split_lines(s@) =~= out@.map_values(|l: String| l@) + split_lines(
                s@.subrange(pos as int, slen as int),
            ),
        decreases slen - pos,
    {
        let ghost rest = s@.subrange(pos as int, slen as int);
        let nl = find_char_from(s, slen, pos, '\n');
        proof {
            assert(rest.subrange(0, nl - pos) =~= s@.subrange(pos as int, nl as int));
        }
        let mut end = nl;
        if end > pos && s.get_char(end - 1) == '\r' {
            end = end - 1;
            proof {
                let raw = rest.subrange(0, nl - pos);
                assert(raw.drop_last() =~= s@.subrange(pos as int, end as int));
            }
        }
        let line = s.substring_char(pos, end);
        out.push(String::from_str(line));
        if nl < slen {
            proof {
                assert(rest.subrange(nl - pos + 1, rest.len() as int) =~= s@.subrange(
                    nl as int + 1,
                    slen as int,
                ));
                assert(out@.map_values(|l: String| l@) =~= out@.map_values(|l: String| l@));
            }
            pos = nl + 1;
        } else {
            pos = slen;
            proof {
                assert(s@.subrange(pos as int, slen as int) =~= Seq::<char>::empty());
            }
        }
    }
    proof {
        assert(s@.subrange(pos as int, slen as int) =~= Seq::<char>::empty());
        assert(split_lines(s@) =~= out@.map_values(|l: String| l@));
    }
    out
}

} // verus!
