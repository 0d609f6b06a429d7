use porg::naming::normalize_pdf_name;

fn derive_names(authors: &[&str], year: &str) -> Vec<u8> {
    let authors: Vec<Vec<u8>> = authors.iter().map(|a| a.as_bytes().to_vec()).collect();
    porg::naming::derive(&authors, &year.as_bytes().to_vec())
}

#[test]
fn single_author_keeps_full_surname() {
    // 1 author: full filtered surname + 2-digit year + .pdf
    assert_eq!(derive_names(&["Alice Smith"], "2023"), b"Smith23.pdf".to_vec());
}

#[test]
fn two_authors_truncate_to_three() {
    assert_eq!(
        derive_names(&["Alice Smith", "Bob Jones"], "2023"),
        b"SmiJon23.pdf".to_vec()
    );
}

#[test]
fn three_authors_truncate_to_three() {
    assert_eq!(
        derive_names(&["Alice Smith", "Bob Jones", "Carol Miller"], "2021"),
        b"SmiJonMil21.pdf".to_vec()
    );
}

#[test]
fn four_authors_truncate_to_one() {
    assert_eq!(
        derive_names(
            &["Alice Brown", "Bob Clark", "Carol Davis", "Dan Evans"],
            "2022"
        ),
        b"BCDE22.pdf".to_vec()
    );
}

#[test]
fn short_surname_kept_whole_under_three_authors() {
    // a surname shorter than the truncation limit is kept whole
    assert_eq!(derive_names(&["Bo Li", "Alice Smith"], "2020"), b"LiSmi20.pdf".to_vec());
}

#[test]
fn non_letters_are_filtered_from_surname() {
    assert_eq!(
        derive_names(&["Jean-Pierre Dupont-Smith"], "2019"),
        b"DupontSmith19.pdf".to_vec()
    );
}

#[test]
fn repeated_calls_yield_identical_filename() {
    let a = derive_names(&["Alice Smith", "Bob Jones"], "2023");
    let b = derive_names(&["Alice Smith", "Bob Jones"], "2023");
    assert_eq!(a, b);
}

#[test]
fn author_order_changes_stem() {
    let ab = derive_names(&["Alice Smith", "Bob Jones"], "2023");
    let ba = derive_names(&["Bob Jones", "Alice Smith"], "2023");
    assert_ne!(ab, ba);
}

#[test]
fn extra_whitespace_in_name_does_not_change_stem() {
    // the surname is the last space-separated token; other whitespace is
    // irrelevant
    let plain = derive_names(&["Alice Smith"], "2023");
    let spaced = derive_names(&["Alice  Middle  Smith"], "2023");
    let wider = derive_names(&["Alice Middle Smith"], "2023");
    assert_eq!(plain, spaced);
    assert_eq!(plain, wider);
}

#[test]
fn zero_authors_yield_year_only_name() {
    let authors: Vec<Vec<u8>> = Vec::new();
    let r = porg::naming::derive(&authors, &b"2023".to_vec());
    assert_eq!(r, b"23.pdf".to_vec());
}

#[test]
fn year_suffix_takes_last_two_characters() {
    assert_eq!(derive_names(&["Alice Smith"], "1999"), b"Smith99.pdf".to_vec());
}

#[test]
fn normalize_adds_missing_pdf_suffix() {
    assert_eq!(normalize_pdf_name(&b"paper".to_vec()), b"paper.pdf".to_vec());
}

#[test]
fn normalize_keeps_single_pdf_suffix() {
    assert_eq!(normalize_pdf_name(&b"paper.pdf".to_vec()), b"paper.pdf".to_vec());
}

#[test]
fn normalize_collapses_repeated_pdf_suffixes() {
    assert_eq!(
        normalize_pdf_name(&b"paper.pdf.pdf".to_vec()),
        b"paper.pdf".to_vec()
    );
}
