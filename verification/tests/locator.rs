use porg::locator::{metadata_url, pdf_url, resolve};
use porg::PipelineError;

#[test]
fn resolve_valid_locator() {
    let id = resolve("https://eprint.iacr.org/2023/1234").unwrap();
    assert_eq!(id.year, b"2023".to_vec());
    assert_eq!(id.number, b"1234".to_vec());
}

#[test]
fn resolve_strips_trailing_pdf() {
    let id = resolve("https://eprint.iacr.org/2023/1234.pdf").unwrap();
    assert_eq!(id.year, b"2023".to_vec());
    assert_eq!(id.number, b"1234".to_vec());
}

#[test]
fn resolve_round_trips_with_and_without_pdf() {
    let plain = resolve("https://eprint.iacr.org/2019/458").unwrap();
    let direct = resolve("https://eprint.iacr.org/2019/458.pdf").unwrap();
    assert_eq!(plain.year, direct.year);
    assert_eq!(plain.number, direct.number);
}

#[test]
fn resolve_is_deterministic() {
    let a = resolve("https://eprint.iacr.org/2023/1234").unwrap();
    let b = resolve("https://eprint.iacr.org/2023/1234").unwrap();
    assert_eq!(a.year, b.year);
    assert_eq!(a.number, b.number);
}

#[test]
fn resolve_rejects_unparseable_locator() {
    assert_eq!(resolve("not a url").unwrap_err(), PipelineError::InvalidLocator);
}

#[test]
fn resolve_rejects_other_host() {
    assert_eq!(
        resolve("https://example.com/2023/1234").unwrap_err(),
        PipelineError::UnsupportedHost
    );
}

#[test]
fn resolve_rejects_hostless_url() {
    assert_eq!(
        resolve("mailto:someone@example.com").unwrap_err(),
        PipelineError::UnsupportedHost
    );
}

#[test]
fn resolve_rejects_missing_number_segment() {
    assert_eq!(
        resolve("https://eprint.iacr.org/2023").unwrap_err(),
        PipelineError::InvalidLocator
    );
}

#[test]
fn resolve_rejects_empty_segments() {
    assert_eq!(
        resolve("https://eprint.iacr.org//1234").unwrap_err(),
        PipelineError::InvalidLocator
    );
    assert_eq!(
        resolve("https://eprint.iacr.org/2023/").unwrap_err(),
        PipelineError::InvalidLocator
    );
}

#[test]
fn resolve_ignores_extra_segments() {
    let id = resolve("https://eprint.iacr.org/2023/1234/extra").unwrap();
    assert_eq!(id.year, b"2023".to_vec());
    assert_eq!(id.number, b"1234".to_vec());
}

#[test]
fn resolve_accepts_uppercase_host_spelling() {
    // URL parsing normalizes the host to lower case
    let id = resolve("https://EPRINT.IACR.ORG/2023/1234").unwrap();
    assert_eq!(id.year, b"2023".to_vec());
    assert_eq!(id.number, b"1234".to_vec());
}

#[test]
fn resolve_strips_repeated_pdf_suffixes() {
    let id = resolve("https://eprint.iacr.org/2023/1234.pdf.pdf").unwrap();
    assert_eq!(id.number, b"1234".to_vec());
}

#[test]
fn urls_are_rebuilt_from_identifier() {
    let id = resolve("https://eprint.iacr.org/2023/1234").unwrap();
    assert_eq!(
        metadata_url(&id),
        b"https://eprint.iacr.org/2023/1234".to_vec()
    );
    assert_eq!(pdf_url(&id), b"https://eprint.iacr.org/2023/1234.pdf".to_vec());
}
