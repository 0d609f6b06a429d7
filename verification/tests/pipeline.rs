use porg::locator::resolve;
use porg::metadata::PaperMetadata;
use porg::pipeline::{plan_invocation, stem_of};

fn sample_metadata() -> PaperMetadata {
    PaperMetadata {
        title: b"A Paper".to_vec(),
        authors: vec![b"Alice Smith".to_vec()],
        abstract_text: b"An abstract.".to_vec(),
    }
}

#[test]
fn first_invocation_downloads_and_links() {
    let meta = sample_metadata();
    let id = resolve("https://eprint.iacr.org/2023/1234").unwrap();
    let p = plan_invocation(&meta, &id, &None, false, false, false);
    assert_eq!(p.filename, b"Smith23.pdf".to_vec());
    assert!(p.download);
    assert!(p.refresh_sidecar);
    assert!(p.create_link);
}

#[test]
fn second_invocation_reuses_cache_and_link() {
    // the pipeline run again for the same identifier: the artifact and the
    // link exist, so nothing is downloaded and the link is left alone,
    // while the sidecar is still refreshed
    let meta = sample_metadata();
    let id = resolve("https://eprint.iacr.org/2023/1234").unwrap();
    let first = plan_invocation(&meta, &id, &None, false, false, false);
    let second = plan_invocation(&meta, &id, &None, true, true, false);
    assert_eq!(first.filename, second.filename);
    assert!(!second.download);
    assert!(!second.create_link);
    assert!(second.refresh_sidecar);
}

#[test]
fn sidecar_reflects_latest_fetch_even_when_cached() {
    let id = resolve("https://eprint.iacr.org/2023/1234").unwrap();
    let meta = sample_metadata();
    let mut updated = sample_metadata();
    updated.title = b"A Paper, Revised".to_vec();
    let stale = plan_invocation(&meta, &id, &None, true, true, false);
    let fresh = plan_invocation(&updated, &id, &None, true, true, false);
    assert!(fresh.refresh_sidecar);
    assert_ne!(stale.sidecar, fresh.sidecar);
    assert_eq!(
        fresh.sidecar,
        b"A Paper, Revised\nAlice Smith\nAn abstract.".to_vec()
    );
}

#[test]
fn userscript_invocation_never_links() {
    let meta = sample_metadata();
    let id = resolve("https://eprint.iacr.org/2023/1234").unwrap();
    let p = plan_invocation(&meta, &id, &None, false, false, true);
    assert!(!p.create_link);
}

#[test]
fn explicit_name_wins_and_is_normalized() {
    let meta = sample_metadata();
    let id = resolve("https://eprint.iacr.org/2023/1234").unwrap();
    let p = plan_invocation(&meta, &id, &Some(b"mypaper".to_vec()), false, false, false);
    assert_eq!(p.filename, b"mypaper.pdf".to_vec());
    let q = plan_invocation(
        &meta,
        &id,
        &Some(b"mypaper.pdf".to_vec()),
        false,
        false,
        false,
    );
    assert_eq!(q.filename, b"mypaper.pdf".to_vec());
}

#[test]
fn plan_carries_sidecar_text() {
    let meta = sample_metadata();
    let id = resolve("https://eprint.iacr.org/2023/1234").unwrap();
    let p = plan_invocation(&meta, &id, &None, false, false, false);
    assert_eq!(p.sidecar, b"A Paper\nAlice Smith\nAn abstract.".to_vec());
}

#[test]
fn stem_drops_pdf_suffix() {
    assert_eq!(stem_of(&b"Smith23.pdf".to_vec()), b"Smith23".to_vec());
    assert_eq!(stem_of(&b"Smith23".to_vec()), b"Smith23".to_vec());
}
