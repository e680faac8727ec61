//! Output-file naming: substring search over header values, the
//! `Content-Disposition` filename parser, filename extraction from the URL
//! path, and the rule that picks the output path.

use vstd::prelude::*;

verus! {

/// `needle` occurs in `hay` starting at position `i`.
pub open spec fn matches_at(hay: Seq<u8>, needle: Seq<u8>, i: int) -> bool {
    &&& 0 <= i
    &&& i + needle.len() <= hay.len()
    &&& forall|j: int| 0 <= j < needle.len() ==> hay[i + j] == needle[j]
}

/// The first position at or after `i` where `needle` occurs in `hay`, if
/// any.
pub open spec fn find_from_spec(hay: Seq<u8>, needle: Seq<u8>, i: int) -> Option<int>
    recommends
        0 <= i,
    decreases hay.len() - i,
{
    if i + needle.len() > hay.len() {
        None
    } else if matches_at(hay, needle, i) {
        Some(i)
    } else {
        find_from_spec(hay, needle, i + 1)
    }
}

/// `find_from_spec` returns the first occurrence at or after `i`, and
/// `None` exactly when there is none.
pub proof fn lemma_find_from_characterizes(hay: Seq<u8>, needle: Seq<u8>, i: int)
    requires
        0 <= i,
    ensures
        match find_from_spec(hay, needle, i) {
            Some(k) => i <= k && matches_at(hay, needle, k) && forall|j: int|
                i <= j < k ==> !matches_at(hay, needle, j),
            None => forall|j: int| i <= j ==> !matches_at(hay, needle, j),
        },
    decreases hay.len() - i,
{
    if i + needle.len() > hay.len() {
    } else if matches_at(hay, needle, i) {
    } else {
        lemma_find_from_characterizes(hay, needle, i + 1);
    }
}

/// Whether `needle` occurs at position `i` of `hay`.
fn slice_matches_at(hay: &[u8], needle: &[u8], i: usize) -> (r: bool)
    requires
        i + needle@.len() <= hay@.len(),
    ensures
        r == matches_at(hay@, needle@, i as int),
{
    let n = needle.len();
    let hlen = hay.len();
    let mut j: usize = 0;
    while j < n
        invariant
            n == needle@.len(),
            hlen == hay@.len(),
            i + n <= hay@.len(),
            j <= n,
            forall|t: int| 0 <= t < j ==> hay@[i + t] == needle@[t],
        decreases n - j,
    {
        if hay[i + j] != needle[j] {
            return false;
        }
        j += 1;
    }
    true
}

/// Finds the first occurrence of `needle` in `hay` at or after `i`.
pub fn find_subslice_from(hay: &[u8], needle: &[u8], i: usize) -> (r: Option<usize>)
    ensures
        match r {
            Some(k) => find_from_spec(hay@, needle@, i as int) == Some(k as int) && k
                + needle@.len() <= hay@.len() && i <= k,
            None => find_from_spec(hay@, needle@, i as int) is None,
        },
    decreases hay@.len() - i,
{
    if needle.len() > hay.len() || i > hay.len() - needle.len() {
        return None;
    }
    if slice_matches_at(hay, needle, i) {
        Some(i)
    } else {
        find_subslice_from(hay, needle, i + 1)
    }
}

/// Finds the first occurrence of `needle` in `hay`.
pub fn find_subslice(hay: &[u8], needle: &[u8]) -> (r: Option<usize>)
    ensures
        match r {
            Some(k) => find_from_spec(hay@, needle@, 0) == Some(k as int) && k + needle@.len()
                <= hay@.len(),
            None => find_from_spec(hay@, needle@, 0) is None,
        },
{
    find_subslice_from(hay, needle, 0)
}

/// The ASCII token "bytes", as it appears in an `Accept-Ranges` value.
pub open spec fn bytes_token() -> Seq<u8> {
    seq![98u8, 121u8, 116u8, 101u8, 115u8]
}

/// Whether a HEAD response's `Accept-Ranges` value (if any) announces byte
/// ranges, i.e. contains the token "bytes".
pub fn accepts_byte_ranges(value: Option<&[u8]>) -> (r: bool)
    ensures
        r == match value {
            Some(v) => find_from_spec(v@, bytes_token(), 0) is Some,
            None => false,
        },
{
    let token: [u8; 5] = [98u8, 121u8, 116u8, 101u8, 115u8];
    match value {
        Some(v) => {
            proof {
                assert(token@ =~= bytes_token());
            }
            find_subslice(v, token.as_slice()).is_some()
        },
        None => false,
    }
}

/// The ASCII token "filename=" of a `Content-Disposition` value.
pub open spec fn filename_token() -> Seq<u8> {
    seq![102u8, 105u8, 108u8, 101u8, 110u8, 97u8, 109u8, 101u8, 61u8]
}

/// The filename carried by a `Content-Disposition` value: the bytes after
/// the first "filename=", up to the closing double quote when the value is
/// quoted (no closing quote means no filename), else up to the first
/// semicolon or the end.
pub open spec fn content_disposition_filename(d: Seq<u8>) -> Option<Seq<u8>> {
    match find_from_spec(d, filename_token(), 0) {
        None => None,
        Some(idx) => {
            let start = idx + 9;
            if start < d.len() && d[start] == 34 {
                let rest = d.subrange(start + 1, d.len() as int);
                match find_from_spec(rest, seq![34u8], 0) {
                    Some(q) => Some(rest.subrange(0, q)),
                    None => None,
                }
            } else {
                let tail = d.subrange(start, d.len() as int);
                match find_from_spec(tail, seq![59u8], 0) {
                    Some(s) => Some(tail.subrange(0, s)),
                    None => Some(tail),
                }
            }
        },
    }
}

/// Parses the filename out of a `Content-Disposition` header value.
pub fn parse_content_disposition(d: &[u8]) -> (r: Option<Vec<u8>>)
    ensures
        match r {
            Some(v) => content_disposition_filename(d@) == Some(v@),
            None => content_disposition_filename(d@) is None,
        },
{
    let token: [u8; 9] = [102u8, 105u8, 108u8, 101u8, 110u8, 97u8, 109u8, 101u8, 61u8];
    proof {
        assert(token@ =~= filename_token());
    }
    let dlen = d.len();
    match find_subslice(d, token.as_slice()) {
        None => None,
        Some(idx) => {
            assert(idx + 9 <= dlen);
            let start = idx + 9;
            if start < d.len() && d[start] == 34 {
                let rest = crate::bytes::copy_range(d, start + 1, d.len());
                let quote: [u8; 1] = [34u8];
                proof {
                    assert(quote@ =~= seq![34u8]);
                }
                match find_subslice(rest.as_slice(), quote.as_slice()) {
                    Some(q) => Some(crate::bytes::copy_range(rest.as_slice(), 0, q)),
                    None => None,
                }
            } else {
                let tail = crate::bytes::copy_range(d, start, d.len());
                let semi: [u8; 1] = [59u8];
                proof {
                    assert(semi@ =~= seq![59u8]);
                }
                match find_subslice(tail.as_slice(), semi.as_slice()) {
                    Some(s) => Some(crate::bytes::copy_range(tail.as_slice(), 0, s)),
                    None => Some(tail),
                }
            }
        },
    }
}

/// Whether `b` is an ASCII whitespace byte.
pub open spec fn is_ascii_space(b: u8) -> bool {
    b == 32 || b == 9 || b == 10 || b == 13
}

/// `s` without leading ASCII whitespace.
pub open spec fn trim_leading(s: Seq<u8>) -> Seq<u8>
    decreases s.len(),
{
    if s.len() > 0 && is_ascii_space(s[0]) {
        trim_leading(s.subrange(1, s.len() as int))
    } else {
        s
    }
}

/// `s` without trailing ASCII whitespace.
pub open spec fn trim_trailing(s: Seq<u8>) -> Seq<u8>
    decreases s.len(),
{
    if s.len() > 0 && is_ascii_space(s[s.len() - 1]) {
        trim_trailing(s.drop_last())
    } else {
        s
    }
}

/// `s` without leading or trailing ASCII whitespace.
pub open spec fn ascii_trim(s: Seq<u8>) -> Seq<u8> {
    trim_leading(trim_trailing(s))
}

/// Strips leading and trailing ASCII whitespace.
pub fn trim_bytes(s: &[u8]) -> (r: Vec<u8>)
    ensures
        r@ == ascii_trim(s@),
{
    let mut end: usize = s.len();
    proof {
        assert(s@.subrange(0, end as int) =~= s@);
    }
    while end > 0 && (s[end - 1] == 32 || s[end - 1] == 9 || s[end - 1] == 10 || s[end - 1] == 13)
        invariant
            end <= s@.len(),
            trim_trailing(s@) == trim_trailing(s@.subrange(0, end as int)),
        decreases end,
    {
        proof {
            let cur = s@.subrange(0, end as int);
            assert(cur.drop_last() =~= s@.subrange(0, end - 1));
        }
        end -= 1;
    }
    proof {
        assert(trim_trailing(s@.subrange(0, end as int)) == s@.subrange(0, end as int));
    }
    let mut start: usize = 0;
    while start < end && (s[start] == 32 || s[start] == 9 || s[start] == 10 || s[start] == 13)
        invariant
            start <= end <= s@.len(),
            trim_leading(s@.subrange(0, end as int)) == trim_leading(
                s@.subrange(start as int, end as int),
            ),
        decreases end - start,
    {
        proof {
            let cur = s@.subrange(start as int, end as int);
            assert(cur.subrange(1, cur.len() as int) =~= s@.subrange(start + 1, end as int));
        }
        start += 1;
    }
    proof {
        assert(trim_leading(s@.subrange(start as int, end as int)) == s@.subrange(
            start as int,
            end as int,
        ));
    }
    crate::bytes::copy_range(s, start, end)
}

/// How one "Key: Value" line splits: the bytes before the first colon and
/// the bytes after it, each stripped of surrounding ASCII whitespace; or
/// nothing when the line has no colon.
pub open spec fn header_line_parts(h: Seq<u8>) -> Option<(Seq<u8>, Seq<u8>)> {
    match find_from_spec(h, seq![58u8], 0) {
        None => None,
        Some(idx) => Some(
            (ascii_trim(h.subrange(0, idx)), ascii_trim(h.subrange(idx + 1, h.len() as int))),
        ),
    }
}

/// Splits a caller-supplied "Key: Value" header line into its trimmed name
/// and value; lines without a colon carry no header and are skipped.
pub fn parse_header_line(h: &[u8]) -> (r: Option<(Vec<u8>, Vec<u8>)>)
    ensures
        match r {
            Some(p) => header_line_parts(h@) == Some((p.0@, p.1@)),
            None => header_line_parts(h@) is None,
        },
{
    let colon: [u8; 1] = [58u8];
    proof {
        assert(colon@ =~= seq![58u8]);
    }
    match find_subslice(h, colon.as_slice()) {
        None => None,
        Some(idx) => {
            let hlen = h.len();
            assert(idx + 1 <= hlen);
            let name_raw = crate::bytes::copy_range(h, 0, idx);
            let value_raw = crate::bytes::copy_range(h, idx + 1, hlen);
            let name = trim_bytes(name_raw.as_slice());
            let value = trim_bytes(value_raw.as_slice());
            Some((name, value))
        },
    }
}

/// The path component of a URL, as the `url` crate parses it; a pure
/// function of the URL text, left uninterpreted here. `None` when the text
/// is not valid UTF-8 or not a parseable absolute URL.
pub uninterp spec fn url_path_of(url: Seq<u8>) -> Option<Seq<u8>>;

/// Relies on `reqwest::Url::parse` and `Url::path`: parsing a URL and
/// taking its path is deterministic in the URL text alone; parse failures
/// (and non-UTF-8 input) yield no path.
#[verifier::external_body]
fn url_path(url: &[u8]) -> (r: Option<Vec<u8>>)
    ensures
        match r {
            Some(p) => url_path_of(url@) == Some(p@),
            None => url_path_of(url@) is None,
        },
{
    match core::str::from_utf8(url) {
        Ok(s) => match reqwest::Url::parse(s) {
            Ok(u) => Some(u.path().as_bytes().to_vec()),
            Err(_) => None,
        },
        Err(_) => None,
    }
}

/// The percent-decoding of a byte string, as the `urlencoding` crate
/// computes it over UTF-8 text; a pure function of its input, left
/// uninterpreted here. `None` when the input is not valid UTF-8 or the
/// decoded bytes are not.
pub uninterp spec fn percent_decoded(data: Seq<u8>) -> Option<Seq<u8>>;

/// Relies on `urlencoding::decode`: percent-decoding is deterministic in
/// the input bytes alone; inputs or outputs that are not valid UTF-8 yield
/// `None`.
#[verifier::external_body]
fn percent_decode(data: &[u8]) -> (r: Option<Vec<u8>>)
    ensures
        match r {
            Some(v) => percent_decoded(data@) == Some(v@),
            None => percent_decoded(data@) is None,
        },
{
    match core::str::from_utf8(data) {
        Ok(s) => match urlencoding::decode(s) {
            Ok(c) => Some(c.into_owned().into_bytes()),
            Err(_) => None,
        },
        Err(_) => None,
    }
}

/// `p` without its trailing slashes.
pub open spec fn trim_trailing_slashes(p: Seq<u8>) -> Seq<u8>
    decreases p.len(),
{
    if p.len() > 0 && p[p.len() - 1] == 47 {
        trim_trailing_slashes(p.drop_last())
    } else {
        p
    }
}

/// The position right after the last slash of `p` (0 if `p` has none).
pub open spec fn basename_start(p: Seq<u8>) -> int
    decreases p.len(),
{
    if p.len() == 0 {
        0
    } else if p[p.len() - 1] == 47 {
        p.len() as int
    } else {
        basename_start(p.drop_last())
    }
}

/// `basename_start` is pinned by its two defining properties: everything
/// from it on is slash-free, and it sits right after a slash (or at 0).
proof fn lemma_basename_start_unique(t: Seq<u8>, s: int)
    requires
        0 <= s <= t.len(),
        s == 0 || t[s - 1] == 47,
        forall|j: int| s <= j < t.len() ==> t[j] != 47,
    ensures
        basename_start(t) == s,
    decreases t.len(),
{
    if t.len() == 0 {
    } else if t[t.len() - 1] == 47 {
        assert(s == t.len());
    } else {
        assert(s < t.len());
        lemma_basename_start_unique(t.drop_last(), s);
    }
}

/// The last path segment of `p`, with trailing slashes ignored.
pub open spec fn path_basename(p: Seq<u8>) -> Seq<u8> {
    let t = trim_trailing_slashes(p);
    t.subrange(basename_start(t), t.len() as int)
}

/// The filename a path yields: its basename, unless that is empty or a dot
/// segment.
pub open spec fn filename_from_path(p: Seq<u8>) -> Option<Seq<u8>> {
    let b = path_basename(p);
    if b.len() == 0 || b == seq![46u8] || b == seq![46u8, 46u8] {
        None
    } else {
        Some(b)
    }
}

/// The last path segment of `p`, with trailing slashes ignored.
pub fn path_basename_exec(p: &[u8]) -> (r: Vec<u8>)
    ensures
        r@ == path_basename(p@),
{
    let mut end: usize = p.len();
    proof {
        assert(p@.subrange(0, end as int) =~= p@);
    }
    while end > 0 && p[end - 1] == 47
        invariant
            end <= p@.len(),
            trim_trailing_slashes(p@) == trim_trailing_slashes(p@.subrange(0, end as int)),
        decreases end,
    {
        proof {
            let cur = p@.subrange(0, end as int);
            assert(cur.drop_last() =~= p@.subrange(0, end - 1));
        }
        end -= 1;
    }
    proof {
        assert(trim_trailing_slashes(p@.subrange(0, end as int)) == p@.subrange(0, end as int));
    }
    let mut start: usize = end;
    while start > 0 && p[start - 1] != 47
        invariant
            start <= end <= p@.len(),
            forall|j: int| start <= j < end ==> p@[j] != 47,
        decreases start,
    {
        start -= 1;
    }
    proof {
        let t = p@.subrange(0, end as int);
        assert(forall|j: int| start <= j < t.len() ==> t[j] != 47);
        lemma_basename_start_unique(t, start as int);
        assert(p@.subrange(start as int, end as int) =~= t.subrange(
            basename_start(t),
            t.len() as int,
        ));
    }
    crate::bytes::copy_range(p, start, end)
}

/// What a URL names its file: the last segment of the URL's path,
/// percent-decoded; nothing when the URL does not parse, its path has no
/// usable last segment, or the decoding fails.
pub open spec fn url_filename(url: Seq<u8>) -> Option<Seq<u8>> {
    match url_path_of(url) {
        None => None,
        Some(p) => match filename_from_path(p) {
            None => None,
            Some(b) => percent_decoded(b),
        },
    }
}

/// Extracts the filename suggested by the URL itself.
pub fn extract_filename_from_url(url: &[u8]) -> (r: Option<Vec<u8>>)
    ensures
        match r {
            Some(v) => url_filename(url@) == Some(v@),
            None => url_filename(url@) is None,
        },
{
    match url_path(url) {
        None => None,
        Some(p) => {
            let b = path_basename_exec(p.as_slice());
            let is_empty = b.len() == 0;
            let is_dot = b.len() == 1 && b[0] == 46;
            let is_dotdot = b.len() == 2 && b[0] == 46 && b[1] == 46;
            proof {
                if b@.len() == 1 && b@[0] == 46 {
                    assert(b@ =~= seq![46u8]);
                }
                if b@.len() == 2 && b@[0] == 46 && b@[1] == 46 {
                    assert(b@ =~= seq![46u8, 46u8]);
                }
                if b@ == seq![46u8] {
                    assert(b@.len() == 1 && b@[0] == 46);
                }
                if b@ == seq![46u8, 46u8] {
                    assert(b@.len() == 2 && b@[0] == 46 && b@[1] == 46);
                }
            }
            if is_empty || is_dot || is_dotdot {
                None
            } else {
                percent_decode(b.as_slice())
            }
        },
    }
}

/// The ASCII name "output.bin": the default output path, which stands for
/// "no explicit output name was configured".
pub open spec fn default_output_name() -> Seq<u8> {
    seq![111u8, 117u8, 116u8, 112u8, 117u8, 116u8, 46u8, 98u8, 105u8, 110u8]
}

/// Picks the output path: a detected filename (from the response or the
/// URL) replaces the configured path exactly when the configured path's
/// basename is the default output name; otherwise the configured path
/// stands.
pub fn determine_output_path(configured: &[u8], detected: Option<Vec<u8>>) -> (r: Vec<u8>)
    ensures
        detected matches Some(d) ==> (if path_basename(configured@) == default_output_name() {
            r@ == d@
        } else {
            r@ == configured@
        }),
        detected is None ==> r@ == configured@,
{
    let b = path_basename_exec(configured);
    let name: [u8; 10] = [111u8, 117u8, 116u8, 112u8, 117u8, 116u8, 46u8, 98u8, 105u8, 110u8];
    proof {
        assert(name@ =~= default_output_name());
    }
    let is_default = crate::bytes::bytes_eq(b.as_slice(), name.as_slice());
    match detected {
        Some(d) => {
            if is_default {
                d
            } else {
                let r = crate::bytes::copy_range(configured, 0, configured.len());
                proof {
                    assert(r@ =~= configured@);
                }
                r
            }
        },
        None => {
            let r = crate::bytes::copy_range(configured, 0, configured.len());
            proof {
                assert(r@ =~= configured@);
            }
            r
        },
    }
}

} // verus!
