//! Identifier resolution: validate a raw locator against the supported
//! repository host, extract the canonical `(year, number)` pair, and build
//! the metadata-page and PDF URLs from it.
use vstd::prelude::*;
use vstd::string::StringSliceAdditionalSpecFns;
use crate::PipelineError;
use crate::bytes::{
    starts_with, ends_with, head_before, rest_after, strip_suffix_all, bytes_eq, find_byte, subvec,
    strip_suffix_all_exec, lemma_strip_suffix_all_clean,
};
use crate::consts::{
    supported_host, scheme_prefix, pdf_suffix, supported_host_vec, scheme_prefix_vec,
    pdf_suffix_vec, SLASH,
};

verus! {

/// A canonical paper identifier: the first two path segments of a valid
/// locator, with any trailing `.pdf` stripped from the number.
#[derive(Debug)]
pub struct PaperIdentifier {
    pub year: Vec<u8>,
    pub number: Vec<u8>,
}

impl PaperIdentifier {
    /// Both parts non-empty, and the number free of a trailing `.pdf`.
    pub open spec fn wf(&self) -> bool {
        self.year@.len() > 0 && self.number@.len() > 0 && !ends_with(self.number@, pdf_suffix())
    }
}

/// What `url::Url::parse` extracts from a locator text: `None` when the
/// text is not a parseable URL, otherwise the pair of its host (empty when
/// the URL has none) and its path.
pub uninterp spec fn url_parts_of(locator: Seq<u8>) -> Option<(Seq<u8>, Seq<u8>)>;

/// Relies on `url::Url::parse` to decide whether the locator is a valid
/// URL, and on `Url::host_str` and `Url::path` for the parsed host and
/// path.  For a given locator text the outcome depends on the text alone,
/// so it is named by `url_parts_of`.
#[verifier::external_body]
fn parse_locator_parts(locator: &str) -> (r: Option<(Vec<u8>, Vec<u8>)>)
    ensures
        match r {
            Some(hp) => url_parts_of(locator.spec_bytes()) == Some((hp.0@, hp.1@)),
            None => url_parts_of(locator.spec_bytes()) is None,
        },
{
    match url::Url::parse(locator) {
        Ok(u) => {
            let host = u.host_str().unwrap_or("").as_bytes().to_vec();
            let path = u.path().as_bytes().to_vec();
            Some((host, path))
        },
        Err(_) => None,
    }
}

/// The path with one leading slash removed, the shape `Url::path` gives a
/// normal URL.
pub open spec fn path_rest(path: Seq<u8>) -> Seq<u8> {
    if starts_with(path, seq![SLASH]) {
        path.skip(1)
    } else {
        path
    }
}

/// Resolution on the parsed pieces: the supported host is demanded first;
/// then the first path segment is the year and the second, with every
/// trailing `.pdf` stripped, the number; an absent or empty segment is an
/// invalid locator.
pub open spec fn resolve_parts_spec(host: Seq<u8>, path: Seq<u8>) -> Result<
    (Seq<u8>, Seq<u8>),
    PipelineError,
> {
    if host != supported_host() {
        Err(PipelineError::UnsupportedHost)
    } else {
        let p = path_rest(path);
        let year = head_before(p, SLASH);
        match rest_after(p, SLASH) {
            Option::None => Err(PipelineError::InvalidLocator),
            Option::Some(r) => {
                let number = strip_suffix_all(head_before(r, SLASH), pdf_suffix());
                if year.len() == 0 || number.len() == 0 {
                    Err(PipelineError::InvalidLocator)
                } else {
                    Ok((year, number))
                }
            },
        }
    }
}

/// Resolution of a whole locator text, through the parse outcome.
pub open spec fn resolve_spec(locator: Seq<u8>) -> Result<(Seq<u8>, Seq<u8>), PipelineError> {
    match url_parts_of(locator) {
        Option::None => Err(PipelineError::InvalidLocator),
        Option::Some(hp) => resolve_parts_spec(hp.0, hp.1),
    }
}

/// Resolve from an already-parsed host and path.
pub fn resolve_parts(host: &Vec<u8>, path: &Vec<u8>) -> (r: Result<
    PaperIdentifier,
    PipelineError,
>)
    ensures
        match r {
            Ok(id) => resolve_parts_spec(host@, path@) == Ok::<(Seq<u8>, Seq<u8>), PipelineError>(
                (id.year@, id.number@),
            ) && id.wf(),
            Err(e) => resolve_parts_spec(host@, path@) == Err::<(Seq<u8>, Seq<u8>), PipelineError>(
                e,
            ),
        },
{
    let host_ref = supported_host_vec();
    if !bytes_eq(host, &host_ref) {
        return Err(PipelineError::UnsupportedHost);
    }
    let p = if path.len() > 0 && path[0] == SLASH {
        proof {
            assert(path@.take(1) =~= seq![SLASH]);
        }
        let t = subvec(path, 1, path.len());
        proof {
            assert(t@ =~= path@.skip(1));
        }
        t
    } else {
        proof {
            if path@.len() > 0 && starts_with(path@, seq![SLASH]) {
                assert(path@.take(1)[0] == path@[0]);
                assert(false);
            }
        }
        subvec(path, 0, path.len())
    };
    proof {
        assert(p@ == path_rest(path@));
        assert(path@.subrange(0, path@.len() as int) =~= path@);
    }
    match find_byte(&p, SLASH) {
        Option::None => Err(PipelineError::InvalidLocator),
        Option::Some(k) => {
            let year = subvec(&p, 0, k);
            proof {
                assert(year@ =~= head_before(p@, SLASH));
            }
            let r = subvec(&p, k + 1, p.len());
            proof {
                assert(r@ =~= p@.skip(k as int + 1));
            }
            let number_raw = match find_byte(&r, SLASH) {
                Option::None => {
                    proof {
                        assert(r@.subrange(0, r@.len() as int) =~= r@);
                    }
                    subvec(&r, 0, r.len())
                },
                Option::Some(k2) => {
                    let nr = subvec(&r, 0, k2);
                    proof {
                        assert(nr@ =~= head_before(r@, SLASH));
                    }
                    nr
                },
            };
            let suffix = pdf_suffix_vec();
            let number = strip_suffix_all_exec(&number_raw, &suffix);
            if year.len() == 0 || number.len() == 0 {
                Err(PipelineError::InvalidLocator)
            } else {
                proof {
                    lemma_strip_suffix_all_clean(number_raw@, pdf_suffix());
                }
                Ok(PaperIdentifier { year, number })
            }
        },
    }
}

/// Resolve a raw locator: parse it as a URL, demand the supported host,
/// and extract the `(year, number)` identifier, tolerating a trailing
/// `.pdf` on the number.  Pure: the result is a function of the locator
/// text alone.
pub fn resolve(locator: &str) -> (r: Result<PaperIdentifier, PipelineError>)
    ensures
        match r {
            Ok(id) => resolve_spec(locator.spec_bytes()) == Ok::<
                (Seq<u8>, Seq<u8>),
                PipelineError,
            >((id.year@, id.number@)) && id.wf(),
            Err(e) => resolve_spec(locator.spec_bytes()) == Err::<
                (Seq<u8>, Seq<u8>),
                PipelineError,
            >(e),
        },
{
    match parse_locator_parts(locator) {
        Option::None => Err(PipelineError::InvalidLocator),
        Option::Some(hp) => resolve_parts(&hp.0, &hp.1),
    }
}

/// Bytes of the metadata page URL,
/// `https://eprint.iacr.org/<year>/<number>`.
pub open spec fn metadata_url_spec(year: Seq<u8>, number: Seq<u8>) -> Seq<u8> {
    scheme_prefix() + supported_host() + seq![SLASH] + year + seq![SLASH] + number
}

/// Bytes of the PDF URL, the metadata URL with `.pdf` appended.
pub open spec fn pdf_url_spec(year: Seq<u8>, number: Seq<u8>) -> Seq<u8> {
    metadata_url_spec(year, number) + pdf_suffix()
}

/// Build the metadata page URL for `id`.
pub fn metadata_url(id: &PaperIdentifier) -> (r: Vec<u8>)
    ensures
        r@ == metadata_url_spec(id.year@, id.number@),
{
    let mut v = scheme_prefix_vec();
    let mut h = supported_host_vec();
    v.append(&mut h);
    v.push(SLASH);
    let mut y = subvec(&id.year, 0, id.year.len());
    proof {
        assert(y@ =~= id.year@);
    }
    v.append(&mut y);
    v.push(SLASH);
    let mut n = subvec(&id.number, 0, id.number.len());
    proof {
        assert(n@ =~= id.number@);
    }
    v.append(&mut n);
    proof {
        assert(v@ =~= metadata_url_spec(id.year@, id.number@));
    }
    v
}

/// Build the PDF URL for `id`.
pub fn pdf_url(id: &PaperIdentifier) -> (r: Vec<u8>)
    ensures
        r@ == pdf_url_spec(id.year@, id.number@),
{
    let mut v = metadata_url(id);
    let mut s = pdf_suffix_vec();
    v.append(&mut s);
    v
}

/// Resolution is deterministic: two results for the same locator text are
/// the same.
pub proof fn lemma_resolve_deterministic(
    r1: Result<(Seq<u8>, Seq<u8>), PipelineError>,
    r2: Result<(Seq<u8>, Seq<u8>), PipelineError>,
    locator: Seq<u8>,
)
    requires
        r1 == resolve_spec(locator),
        r2 == resolve_spec(locator),
    ensures
        r1 == r2,
{
}

proof fn lemma_append_after_sep(s: Seq<u8>, rs: Seq<u8>, t: Seq<u8>, c: u8)
    requires
        rest_after(s, c) == Some(rs),
    ensures
        head_before(s + t, c) == head_before(s, c),
        rest_after(s + t, c) == Some(rs + t),
    decreases s.len(),
{
    assert(s.len() > 0);
    assert((s + t)[0] == s[0]);
    assert((s + t).skip(1) =~= s.skip(1) + t);
    if s[0] == c {
        assert(rs == s.skip(1));
    } else {
        lemma_append_after_sep(s.skip(1), rs, t, c);
    }
}

proof fn lemma_rest_after_none(s: Seq<u8>, c: u8)
    requires
        rest_after(s, c) is None,
    ensures
        forall|j: int| 0 <= j < s.len() ==> s[j] != c,
    decreases s.len(),
{
    if s.len() > 0 {
        lemma_rest_after_none(s.skip(1), c);
        assert forall|j: int| 0 <= j < s.len() implies s[j] != c by {
            if j > 0 {
                assert(s.skip(1)[j - 1] == s[j]);
            }
        }
    }
}

proof fn lemma_no_sep_head_rest(s: Seq<u8>, c: u8)
    requires
        forall|j: int| 0 <= j < s.len() ==> s[j] != c,
    ensures
        head_before(s, c) == s,
        rest_after(s, c) is None,
    decreases s.len(),
{
    if s.len() > 0 {
        lemma_no_sep_head_rest(s.skip(1), c);
        assert(seq![s[0]] + s.skip(1) =~= s);
    }
}

proof fn lemma_strip_suffix_append(s: Seq<u8>, p: Seq<u8>)
    requires
        p.len() >= 1,
    ensures
        strip_suffix_all(s + p, p) == strip_suffix_all(s, p),
{
    assert((s + p).skip((s + p).len() - p.len()) =~= p);
    assert(ends_with(s + p, p));
    assert((s + p).take((s + p).len() - p.len()) =~= s);
}

/// Round trip with a direct PDF link: a locator that resolves successfully
/// resolves to the same identifier when `.pdf` trails its path.
pub proof fn lemma_resolve_pdf_suffix_roundtrip(host: Seq<u8>, path: Seq<u8>)
    requires
        resolve_parts_spec(host, path) is Ok,
    ensures
        resolve_parts_spec(host, path + pdf_suffix()) == resolve_parts_spec(host, path),
{
    let t = pdf_suffix();
    assert(forall|j: int| 0 <= j < t.len() ==> t[j] != SLASH);
    assert(host == supported_host());
    let p = path_rest(path);
    if p.len() == 0 {
        assert(rest_after(p, SLASH) is None);
    }
    assert(p.len() > 0);
    assert(path.len() > 0);
    // path_rest distributes over the appended suffix
    if starts_with(path, seq![SLASH]) {
        assert((path + t)[0] == path[0]);
        assert(path.take(1)[0] == path[0]);
        assert((path + t).take(1) =~= seq![SLASH]);
        assert(starts_with(path + t, seq![SLASH]));
        assert((path + t).skip(1) =~= p + t);
        assert(path_rest(path + t) == p + t);
    } else {
        if path[0] == SLASH {
            assert(path.take(1) =~= seq![SLASH]);
            assert(false);
        }
        if starts_with(path + t, seq![SLASH]) {
            assert((path + t).take(1)[0] == (path + t)[0]);
            assert((path + t)[0] == path[0]);
            assert(false);
        }
        assert(path_rest(path + t) == path + t);
        assert(p + t == path + t);
    }
    let q = p + t;
    match rest_after(p, SLASH) {
        Option::Some(rs) => {
            lemma_append_after_sep(p, rs, t, SLASH);
            assert(head_before(q, SLASH) == head_before(p, SLASH));
            assert(rest_after(q, SLASH) == Some(rs + t));
            let year = head_before(p, SLASH);
            let nraw = head_before(rs, SLASH);
            let number = strip_suffix_all(nraw, pdf_suffix());
            assert(resolve_parts_spec(host, path) == Ok::<(Seq<u8>, Seq<u8>), PipelineError>(
                (year, number),
            ));
            match rest_after(rs, SLASH) {
                Option::Some(rs2) => {
                    lemma_append_after_sep(rs, rs2, t, SLASH);
                    assert(head_before(rs + t, SLASH) == nraw);
                },
                Option::None => {
                    lemma_rest_after_none(rs, SLASH);
                    assert(forall|j: int| 0 <= j < (rs + t).len() ==> (rs + t)[j] != SLASH);
                    lemma_no_sep_head_rest(rs + t, SLASH);
                    lemma_no_sep_head_rest(rs, SLASH);
                    assert(head_before(rs, SLASH) == rs);
                    lemma_strip_suffix_append(rs, pdf_suffix());
                    assert(strip_suffix_all(head_before(rs + t, SLASH), pdf_suffix()) == number);
                },
            }
            assert(strip_suffix_all(head_before(rs + t, SLASH), pdf_suffix()) == number);
            assert(resolve_parts_spec(host, path + t) == Ok::<(Seq<u8>, Seq<u8>), PipelineError>(
                (year, number),
            ));
        },
        Option::None => {
            assert(false);
        },
    }
}

} // verus!
