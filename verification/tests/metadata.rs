use porg::metadata::{extract, parse_bibtex, sidecar_contents, PaperMetadata};
use porg::PipelineError;

const PAGE: &str = "<html><body>\
<pre id=\"bibtex\">@misc{cryptoeprint:2023/1234,\n      \
author = {Alice Smith and Bob Jones},\n      \
title = {A Paper},\n      \
year = {2023},\n}</pre>\
<p style=\"white-space: pre-wrap;\">An abstract.</p>\
</body></html>";

#[test]
fn extract_reads_authors_title_and_abstract() {
    let m = extract(PAGE).unwrap();
    assert_eq!(m.title, b"A Paper".to_vec());
    assert_eq!(
        m.authors,
        vec![b"Alice Smith".to_vec(), b"Bob Jones".to_vec()]
    );
    assert_eq!(m.abstract_text, b"An abstract.".to_vec());
}

#[test]
fn extract_missing_abstract_is_empty_not_error() {
    let page = "<html><body><pre id=\"bibtex\">@misc{x,\n\
author = {Alice Smith},\ntitle = {A Paper},\n}</pre></body></html>";
    let m = extract(page).unwrap();
    assert_eq!(m.title, b"A Paper".to_vec());
    assert_eq!(m.abstract_text, Vec::<u8>::new());
}

#[test]
fn extract_without_bibtex_block_is_metadata_not_found() {
    let page = "<html><body><p>nothing here</p></body></html>";
    assert_eq!(extract(page).unwrap_err(), PipelineError::MetadataNotFound);
}

#[test]
fn extract_short_block_is_malformed_metadata() {
    let page = "<html><body><pre id=\"bibtex\">only one line</pre></body></html>";
    assert_eq!(extract(page).unwrap_err(), PipelineError::MalformedMetadata);
}

#[test]
fn extract_block_without_title_line_is_malformed_metadata() {
    let page =
        "<html><body><pre id=\"bibtex\">@misc{x,\nauthor = {Alice Smith},</pre></body></html>";
    assert_eq!(extract(page).unwrap_err(), PipelineError::MalformedMetadata);
}

#[test]
fn parse_bibtex_splits_authors_in_order() {
    let block = b"@misc{x,\n  author = {Alice Smith and Bob Jones and Carol Miller},\n  title = {Some Title},\n}".to_vec();
    let (authors, title) = parse_bibtex(&block).unwrap();
    assert_eq!(
        authors,
        vec![
            b"Alice Smith".to_vec(),
            b"Bob Jones".to_vec(),
            b"Carol Miller".to_vec()
        ]
    );
    assert_eq!(title, b"Some Title".to_vec());
}

#[test]
fn parse_bibtex_single_author() {
    let block = b"@misc{x,\nauthor = {Alice Smith},\ntitle = {T},\n}".to_vec();
    let (authors, title) = parse_bibtex(&block).unwrap();
    assert_eq!(authors, vec![b"Alice Smith".to_vec()]);
    assert_eq!(title, b"T".to_vec());
}

#[test]
fn parse_bibtex_handles_crlf_lines() {
    let block = b"@misc{x,\r\nauthor = {Alice Smith},\r\ntitle = {T},\r\n}".to_vec();
    let (authors, title) = parse_bibtex(&block).unwrap();
    assert_eq!(authors, vec![b"Alice Smith".to_vec()]);
    assert_eq!(title, b"T".to_vec());
}

#[test]
fn parse_bibtex_too_few_lines_is_malformed() {
    let block = b"@misc{x, author = {A}, title = {T}}".to_vec();
    assert_eq!(
        parse_bibtex(&block).unwrap_err(),
        PipelineError::MalformedMetadata
    );
}

#[test]
fn sidecar_lays_out_title_authors_abstract() {
    let meta = PaperMetadata {
        title: b"A Paper".to_vec(),
        authors: vec![b"Alice Smith".to_vec(), b"Bob Jones".to_vec()],
        abstract_text: b"An abstract.".to_vec(),
    };
    assert_eq!(
        sidecar_contents(&meta),
        b"A Paper\nAlice Smith\nBob Jones\nAn abstract.".to_vec()
    );
}

#[test]
fn sidecar_with_empty_abstract_ends_after_authors() {
    let meta = PaperMetadata {
        title: b"T".to_vec(),
        authors: vec![b"A B".to_vec()],
        abstract_text: Vec::new(),
    };
    assert_eq!(sidecar_contents(&meta), b"T\nA B\n".to_vec());
}
