//! Metadata extraction: locate the bibtex block and the abstract in the
//! fetched page markup, parse the author list and title out of the block,
//! and lay out the sidecar text written next to a cached artifact.
use vstd::prelude::*;
use vstd::string::StringSliceAdditionalSpecFns;
use crate::PipelineError;
use crate::bytes::{
    head_before, rest_after, trim, trim_start, strip_prefix_all, strip_suffix_all, split_on,
    find_byte, subvec, trim_exec, trim_start_exec, strip_prefix_all_exec, strip_suffix_all_exec,
    split_on_exec,
};
use crate::consts::{
    author_prefix, title_prefix, brace_suffix, and_separator, author_prefix_vec, title_prefix_vec,
    brace_suffix_vec, and_separator_vec, NEWLINE, CARRIAGE_RETURN,
};

verus! {

/// The bibliographic record of one paper, as extracted from its page:
/// title, authors in citation order, and the abstract (empty when the page
/// carries none).
#[derive(Debug)]
pub struct PaperMetadata {
    pub title: Vec<u8>,
    pub authors: Vec<Vec<u8>>,
    pub abstract_text: Vec<u8>,
}

/// What scraper finds as the single pre-formatted bibtex block of a page
/// text: `None` when the page has no such element.
pub uninterp spec fn bibtex_block_of(markup: Seq<u8>) -> Option<Seq<u8>>;

/// What scraper finds as the abstract paragraph of a page text: `None`
/// when the page has no such element.
pub uninterp spec fn abstract_of(markup: Seq<u8>) -> Option<Seq<u8>>;

/// Relies on `scraper::Html::parse_document` and scraper's CSS selector
/// matching: returns the inner HTML of the first `pre` element with id
/// `bibtex`.  For a given page text the block found is fixed, so it is
/// named by `bibtex_block_of`.
#[verifier::external_body]
fn find_bibtex_block(markup: &str) -> (r: Option<Vec<u8>>)
    ensures
        match r {
            Some(b) => bibtex_block_of(markup.spec_bytes()) == Some(b@),
            None => bibtex_block_of(markup.spec_bytes()) is None,
        },
{
    let doc = scraper::Html::parse_document(markup);
    let sel = scraper::Selector::parse("pre[id=\"bibtex\"]").unwrap();
    doc.select(&sel).next().map(|e| e.inner_html().into_bytes())
}

/// Relies on `scraper::Html::parse_document` and scraper's CSS selector
/// matching: returns the inner HTML of the first paragraph styled as
/// pre-wrapped text, the page's abstract.  For a given page text the
/// paragraph found is fixed, so it is named by `abstract_of`.
#[verifier::external_body]
fn find_abstract_block(markup: &str) -> (r: Option<Vec<u8>>)
    ensures
        match r {
            Some(a) => abstract_of(markup.spec_bytes()) == Some(a@),
            None => abstract_of(markup.spec_bytes()) is None,
        },
{
    let doc = scraper::Html::parse_document(markup);
    let sel = scraper::Selector::parse("p[style=\"white-space: pre-wrap;\"]").unwrap();
    doc.select(&sel).next().map(|e| e.inner_html().into_bytes())
}

/// A line with one trailing carriage return removed, as `str::lines` does.
pub open spec fn strip_cr(s: Seq<u8>) -> Seq<u8> {
    if s.len() > 0 && s.last() == CARRIAGE_RETURN {
        s.drop_last()
    } else {
        s
    }
}

/// The second and third lines of the bibtex block, which hold the author
/// list and the title; `None` when the block has fewer than three lines.
pub open spec fn bibtex_fields(block: Seq<u8>) -> Option<(Seq<u8>, Seq<u8>)> {
    match rest_after(block, NEWLINE) {
        Option::None => Option::None,
        Option::Some(r1) => if r1.len() == 0 {
            Option::None
        } else {
            match rest_after(r1, NEWLINE) {
                Option::None => Option::None,
                Option::Some(r2) => if r2.len() == 0 {
                    Option::None
                } else {
                    Option::Some(
                        (strip_cr(head_before(r1, NEWLINE)), strip_cr(head_before(r2, NEWLINE))),
                    )
                },
            }
        },
    }
}

/// The ordered author list held by the author line: the line is trimmed,
/// the `author = {` marker and the `},` terminator are stripped, and the
/// remainder splits on the literal ` and ` separator.
pub open spec fn authors_of_line(line: Seq<u8>) -> Seq<Seq<u8>> {
    split_on(
        strip_suffix_all(strip_prefix_all(trim(line), author_prefix()), brace_suffix()),
        and_separator(),
    )
}

/// The title held by the title line, its leading whitespace and the
/// `title = {` and `},` markers stripped.
pub open spec fn title_of_line(line: Seq<u8>) -> Seq<u8> {
    strip_suffix_all(strip_prefix_all(trim_start(line), title_prefix()), brace_suffix())
}

/// The abstract of a page, or empty when the page carries none.
pub open spec fn abstract_or_empty(markup: Seq<u8>) -> Seq<u8> {
    match abstract_of(markup) {
        Option::Some(a) => a,
        Option::None => Seq::empty(),
    }
}

fn strip_cr_exec(s: &Vec<u8>) -> (r: Vec<u8>)
    ensures
        r@ == strip_cr(s@),
{
    if s.len() > 0 && s[s.len() - 1] == CARRIAGE_RETURN {
        let h = subvec(s, 0, s.len() - 1);
        proof {
            assert(h@ =~= s@.drop_last());
        }
        h
    } else {
        let h = subvec(s, 0, s.len());
        proof {
            assert(h@ =~= s@);
        }
        h
    }
}

/// Parse the bibtex block: the ordered author list from its second line
/// and the title from its third.  A block with fewer than three lines is
/// malformed metadata.
pub fn parse_bibtex(block: &Vec<u8>) -> (r: Result<(Vec<Vec<u8>>, Vec<u8>), PipelineError>)
    ensures
        match r {
            Ok(at) => bibtex_fields(block@) matches Some(ls) && at.0.deep_view()
                == authors_of_line(ls.0) && at.1@ == title_of_line(ls.1) && at.0@.len() >= 1,
            Err(e) => e == PipelineError::MalformedMetadata && bibtex_fields(block@) is None,
        },
{
    let n = block.len();
    let r1 = match find_byte(block, NEWLINE) {
        Option::None => {
            return Err(PipelineError::MalformedMetadata);
        },
        Option::Some(k) => {
            let v = subvec(block, k + 1, n);
            proof {
                assert(v@ =~= block@.skip(k as int + 1));
            }
            v
        },
    };
    if r1.len() == 0 {
        return Err(PipelineError::MalformedMetadata);
    }
    let (author_raw, r2) = match find_byte(&r1, NEWLINE) {
        Option::None => {
            return Err(PipelineError::MalformedMetadata);
        },
        Option::Some(k) => {
            let a = subvec(&r1, 0, k);
            let v = subvec(&r1, k + 1, r1.len());
            proof {
                assert(a@ =~= head_before(r1@, NEWLINE));
                assert(v@ =~= r1@.skip(k as int + 1));
            }
            (a, v)
        },
    };
    if r2.len() == 0 {
        return Err(PipelineError::MalformedMetadata);
    }
    let title_raw = match find_byte(&r2, NEWLINE) {
        Option::None => {
            let v = subvec(&r2, 0, r2.len());
            proof {
                assert(v@ =~= head_before(r2@, NEWLINE));
            }
            v
        },
        Option::Some(k) => {
            let v = subvec(&r2, 0, k);
            proof {
                assert(v@ =~= head_before(r2@, NEWLINE));
            }
            v
        },
    };
    let author_line = strip_cr_exec(&author_raw);
    let title_line = strip_cr_exec(&title_raw);

    let trimmed = trim_exec(&author_line);
    let ap = author_prefix_vec();
    let unprefixed = strip_prefix_all_exec(&trimmed, &ap);
    let bs = brace_suffix_vec();
    let field = strip_suffix_all_exec(&unprefixed, &bs);
    let sep = and_separator_vec();
    let authors = split_on_exec(&field, &sep);

    let tstart = trim_start_exec(&title_line);
    let tp = title_prefix_vec();
    let tun = strip_prefix_all_exec(&tstart, &tp);
    let title = strip_suffix_all_exec(&tun, &bs);

    Ok((authors, title))
}

/// Extract the paper's metadata from fetched page markup: the author list
/// and title from the bibtex block, and the abstract when present (its
/// absence is not an error).
pub fn extract(markup: &str) -> (r: Result<PaperMetadata, PipelineError>)
    ensures
        match r {
            Ok(m) => {
                &&& bibtex_block_of(markup.spec_bytes()) matches Some(b) && bibtex_fields(b)
                    matches Some(ls) && m.authors.deep_view() == authors_of_line(ls.0) && m.title@
                    == title_of_line(ls.1)
                &&& m.abstract_text@ == abstract_or_empty(markup.spec_bytes())
                &&& m.authors@.len() >= 1
            },
            Err(e) => match e {
                PipelineError::MetadataNotFound => bibtex_block_of(markup.spec_bytes()) is None,
                PipelineError::MalformedMetadata => bibtex_block_of(markup.spec_bytes())
                    matches Some(b) && bibtex_fields(b) is None,
                _ => false,
            },
        },
{
    let block = match find_bibtex_block(markup) {
        Option::None => {
            return Err(PipelineError::MetadataNotFound);
        },
        Option::Some(b) => b,
    };
    let (authors, title) = match parse_bibtex(&block) {
        Err(e) => {
            return Err(e);
        },
        Ok(at) => at,
    };
    let abstract_text = match find_abstract_block(markup) {
        Option::Some(a) => a,
        Option::None => Vec::new(),
    };
    Ok(PaperMetadata { title, authors, abstract_text })
}

/// The author lines of the sidecar: each author followed by a newline.
pub open spec fn names_joined(authors: Seq<Seq<u8>>) -> Seq<u8>
    decreases authors.len(),
{
    if authors.len() == 0 {
        Seq::empty()
    } else {
        names_joined(authors.drop_last()) + authors.last() + seq![NEWLINE]
    }
}

/// The sidecar text: the title line, one line per author, then the
/// abstract.
pub open spec fn sidecar_spec(title: Seq<u8>, authors: Seq<Seq<u8>>, abstract_text: Seq<u8>) -> Seq<
    u8,
> {
    title + seq![NEWLINE] + names_joined(authors) + abstract_text
}

/// Lay out the sidecar text for one paper's metadata.
pub fn sidecar_contents(meta: &PaperMetadata) -> (r: Vec<u8>)
    ensures
        r@ == sidecar_spec(meta.title@, meta.authors.deep_view(), meta.abstract_text@),
{
    let mut v = subvec(&meta.title, 0, meta.title.len());
    proof {
        assert(v@ =~= meta.title@);
    }
    v.push(NEWLINE);
    let ghost dv = meta.authors.deep_view();
    let mut i: usize = 0;
    while i < meta.authors.len()
        invariant
            i <= meta.authors@.len(),
            dv == meta.authors.deep_view(),
            v@ == meta.title@ + seq![NEWLINE] + names_joined(dv.take(i as int)),
        decreases meta.authors@.len() - i,
    {
        let a = &meta.authors[i];
        let mut ac = subvec(a, 0, a.len());
        proof {
            assert(ac@ =~= meta.authors@[i as int]@);
        }
        v.append(&mut ac);
        v.push(NEWLINE);
        proof {
            assert(dv.take(i + 1).drop_last() =~~= dv.take(i as int));
            assert(dv.take(i + 1).last() == dv[i as int]);
            assert(dv[i as int] == meta.authors@[i as int]@);
            assert(v@ =~= meta.title@ + seq![NEWLINE] + names_joined(dv.take(i + 1)));
        }
        i += 1;
    }
    proof {
        assert(dv.take(meta.authors@.len() as int) =~~= dv);
    }
    let mut ab = subvec(&meta.abstract_text, 0, meta.abstract_text.len());
    proof {
        assert(ab@ =~= meta.abstract_text@);
    }
    v.append(&mut ab);
    proof {
        assert(v@ =~= sidecar_spec(meta.title@, dv, meta.abstract_text@));
    }
    v
}

} // verus!
