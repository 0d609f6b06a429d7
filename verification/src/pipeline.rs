//! The orchestrator's decisions: which filename an invocation uses, what it
//! writes, what it downloads, and when it links — the part of the
//! fetch-and-cache protocol that makes re-invocation idempotent.  The
//! unverified shell observes the filesystem and the network and executes
//! these decisions.
use vstd::prelude::*;
use crate::locator::PaperIdentifier;
use crate::metadata::{PaperMetadata, sidecar_spec, sidecar_contents};
use crate::naming::{derived_filename, normalized_name, normalize_pdf_name};
use crate::bytes::{strip_suffix_all, strip_suffix_all_exec};
use crate::consts::{pdf_suffix, pdf_suffix_vec};

verus! {

/// What one invocation decides to do, given the fetched metadata and the
/// observed filesystem state.
pub struct InvocationPlan {
    /// The artifact's filename: the caller's name normalized, or the
    /// derived citation-style name.
    pub filename: Vec<u8>,
    /// The sidecar text to write.
    pub sidecar: Vec<u8>,
    /// Fetch the PDF: only when the cache does not hold it yet.
    pub download: bool,
    /// Rewrite the sidecar: on every invocation, also when the binary is
    /// reused.
    pub refresh_sidecar: bool,
    /// Create the working-directory link: only when none is present and
    /// the invocation is interactive.
    pub create_link: bool,
}

/// The view of an optional caller-supplied filename.
pub open spec fn opt_view(o: Option<Vec<u8>>) -> Option<Seq<u8>> {
    match o {
        Option::Some(n) => Option::Some(n@),
        Option::None => Option::None,
    }
}

/// The filename an invocation uses: an explicitly supplied name wins, with
/// its `.pdf` suffix normalized; otherwise the derived citation-style name.
pub open spec fn chosen_filename(
    explicit: Option<Seq<u8>>,
    authors: Seq<Seq<u8>>,
    year: Seq<u8>,
) -> Seq<u8> {
    match explicit {
        Option::Some(name) => normalized_name(name),
        Option::None => derived_filename(authors, year),
    }
}

/// The download decision: fetch only what the cache does not hold.
pub open spec fn download_decision(pdf_cached: bool) -> bool {
    !pdf_cached
}

/// The sidecar decision: rewritten whether or not the binary is cached.
pub open spec fn refresh_decision(pdf_cached: bool) -> bool {
    true
}

/// The link decision: link only when no link is present and the invocation
/// is interactive (not running as a userscript).
pub open spec fn link_decision(link_present: bool, as_userscript: bool) -> bool {
    !link_present && !as_userscript
}

/// The stem of a filename: the name with its `.pdf` suffix stripped; the
/// sidecar is stored under it.
pub fn stem_of(filename: &Vec<u8>) -> (r: Vec<u8>)
    ensures
        r@ == strip_suffix_all(filename@, pdf_suffix()),
{
    let suffix = pdf_suffix_vec();
    strip_suffix_all_exec(filename, &suffix)
}

/// Decide one invocation's actions from the fetched metadata, the resolved
/// identifier, the optional caller-supplied filename, and the observed
/// filesystem state.
pub fn plan_invocation(
    meta: &PaperMetadata,
    id: &PaperIdentifier,
    explicit_name: &Option<Vec<u8>>,
    pdf_cached: bool,
    link_present: bool,
    as_userscript: bool,
) -> (p: InvocationPlan)
    requires
        id.year@.len() >= 2,
    ensures
        p.filename@ == chosen_filename(
            opt_view(*explicit_name),
            meta.authors.deep_view(),
            id.year@,
        ),
        p.sidecar@ == sidecar_spec(meta.title@, meta.authors.deep_view(), meta.abstract_text@),
        p.download == download_decision(pdf_cached),
        p.refresh_sidecar == refresh_decision(pdf_cached),
        p.create_link == link_decision(link_present, as_userscript),
{
    let filename = match explicit_name {
        Option::Some(n) => normalize_pdf_name(n),
        Option::None => crate::naming::derive(&meta.authors, &id.year),
    };
    let sidecar = sidecar_contents(meta);
    InvocationPlan {
        filename,
        sidecar,
        download: !pdf_cached,
        refresh_sidecar: true,
        create_link: !link_present && !as_userscript,
    }
}

/// The filesystem state an invocation observes: whether the cache holds
/// the artifact, and whether the working directory holds the link.
pub struct CacheState {
    pub pdf_cached: bool,
    pub link_present: bool,
}

/// The state after an invocation executes its decisions on `s`: the
/// artifact is cached (it was downloaded if absent, reused otherwise), and
/// the link is present unless a userscript invocation left it uncreated.
pub open spec fn state_after(s: CacheState, as_userscript: bool) -> CacheState {
    CacheState {
        pdf_cached: true,
        link_present: s.link_present || link_decision(s.link_present, as_userscript),
    }
}

/// Idempotence of the cache-and-link protocol: the first invocation
/// downloads exactly when the cache is empty; a repeated invocation for
/// the same identifier downloads nothing, an existing link is never
/// re-created, and re-invocation leaves the state unchanged.
pub proof fn lemma_reinvocation_idempotent(s: CacheState, as_userscript: bool)
    ensures
        download_decision(false),
        !download_decision(state_after(s, as_userscript).pdf_cached),
        !link_decision(true, as_userscript),
        state_after(state_after(s, as_userscript), as_userscript) == state_after(
            s,
            as_userscript,
        ),
{
}

/// Sidecar refresh: an invocation that finds the binary cached and
/// downloads nothing still rewrites the sidecar, so its content reflects
/// the latest fetch.
pub proof fn lemma_sidecar_refreshed_when_cached()
    ensures
        refresh_decision(true),
        !download_decision(true),
{
}

} // verus!
