//! Filename derivation: the cryptobib-style truncation rule that turns an
//! ordered author list and a year into a deterministic `<stem>.pdf` name,
//! and the normalization applied to a caller-supplied name.
use vstd::prelude::*;
use crate::bytes::{
    filter_alpha, tail_after_last, strip_suffix_all, filter_alpha_exec, tail_after_last_exec,
    strip_suffix_all_exec, subvec,
};
use crate::consts::{pdf_suffix, pdf_suffix_vec, SPACE};

verus! {

/// The letters of an author's surname: the final space-separated token of
/// the name, keeping only ASCII letters.
pub open spec fn filtered_surname(name: Seq<u8>) -> Seq<u8> {
    filter_alpha(tail_after_last(name, SPACE))
}

/// What one author contributes to the stem, under the truncation rule for
/// an author list of length `n`: the full filtered surname for a single
/// author, its first three letters for two or three authors, and its first
/// letter otherwise.
pub open spec fn author_short(name: Seq<u8>, n: nat) -> Seq<u8> {
    let f = filtered_surname(name);
    if n == 1 {
        f
    } else if 2 <= n && n <= 3 {
        if f.len() <= 3 {
            f
        } else {
            f.take(3)
        }
    } else {
        if f.len() <= 1 {
            f
        } else {
            f.take(1)
        }
    }
}

/// The concatenated author contributions, in citation order.
pub open spec fn shorts_concat(authors: Seq<Seq<u8>>, n: nat) -> Seq<u8>
    decreases authors.len(),
{
    if authors.len() == 0 {
        Seq::empty()
    } else {
        shorts_concat(authors.drop_last(), n) + author_short(authors.last(), n)
    }
}

/// The two-digit short form of the year: its last two bytes.
pub open spec fn year_suffix(year: Seq<u8>) -> Seq<u8>
    recommends
        year.len() >= 2,
{
    year.skip(year.len() - 2)
}

/// The derived filename: truncated surnames in author order, the two-digit
/// year, and the `.pdf` suffix.
pub open spec fn derived_filename(authors: Seq<Seq<u8>>, year: Seq<u8>) -> Seq<u8> {
    shorts_concat(authors, authors.len()) + year_suffix(year) + pdf_suffix()
}

/// A caller-supplied name with the `.pdf` suffix normalized: every trailing
/// `.pdf` is stripped, then a single `.pdf` is appended.
pub open spec fn normalized_name(name: Seq<u8>) -> Seq<u8> {
    strip_suffix_all(name, pdf_suffix()) + pdf_suffix()
}

fn author_short_exec(name: &Vec<u8>, n: usize) -> (r: Vec<u8>)
    ensures
        r@ == author_short(name@, n as nat),
{
    let t = tail_after_last_exec(name, SPACE);
    let mut f = filter_alpha_exec(&t);
    if n == 1 {
        f
    } else if 2 <= n && n <= 3 {
        if f.len() > 3 {
            f.truncate(3);
        }
        f
    } else {
        if f.len() > 1 {
            f.truncate(1);
        }
        f
    }
}

/// Derive the citation-style filename for `authors` and `year`.  The result
/// is exactly `derived_filename`, a pure function of the two arguments.
pub fn derive(authors: &Vec<Vec<u8>>, year: &Vec<u8>) -> (r: Vec<u8>)
    requires
        year@.len() >= 2,
    ensures
        r@ == derived_filename(authors.deep_view(), year@),
{
    let n = authors.len();
    let mut stem: Vec<u8> = Vec::new();
    let mut i: usize = 0;
    while i < n
        invariant
            i <= n,
            n == authors@.len(),
            stem@ == shorts_concat(authors.deep_view().take(i as int), n as nat),
        decreases n - i,
    {
        let mut short = author_short_exec(&authors[i], n);
        proof {
            assert(authors.deep_view().take(i + 1).drop_last() =~~= authors.deep_view().take(
                i as int,
            ));
            assert(authors.deep_view().take(i + 1).last() == authors@[i as int]@);
        }
        stem.append(&mut short);
        i += 1;
    }
    proof {
        assert(authors.deep_view().take(n as int) =~~= authors.deep_view());
    }
    let mut ys = subvec(year, year.len() - 2, year.len());
    proof {
        assert(ys@ =~= year_suffix(year@));
    }
    stem.append(&mut ys);
    let mut suffix = pdf_suffix_vec();
    stem.append(&mut suffix);
    proof {
        assert(stem@ =~= derived_filename(authors.deep_view(), year@));
    }
    stem
}

/// Normalize a caller-supplied filename to end in exactly one `.pdf`.
pub fn normalize_pdf_name(name: &Vec<u8>) -> (r: Vec<u8>)
    ensures
        r@ == normalized_name(name@),
{
    let suffix = pdf_suffix_vec();
    let mut r = strip_suffix_all_exec(name, &suffix);
    let mut s = pdf_suffix_vec();
    r.append(&mut s);
    r
}

/// Derivation is deterministic and pure: two results obtained for the same
/// author list and year are the same filename.
pub proof fn lemma_derive_deterministic(
    r1: Seq<u8>,
    r2: Seq<u8>,
    authors: Seq<Seq<u8>>,
    year: Seq<u8>,
)
    requires
        r1 == derived_filename(authors, year),
        r2 == derived_filename(authors, year),
    ensures
        r1 == r2,
{
}

proof fn lemma_shorts_concat_tokens(a: Seq<Seq<u8>>, b: Seq<Seq<u8>>, n: nat)
    requires
        a.len() == b.len(),
        forall|i: int| 0 <= i < a.len() ==> tail_after_last(a[i], SPACE) == tail_after_last(
            b[i],
            SPACE,
        ),
    ensures
        shorts_concat(a, n) == shorts_concat(b, n),
    decreases a.len(),
{
    if a.len() > 0 {
        assert(forall|i: int|
            0 <= i < a.drop_last().len() ==> tail_after_last(#[trigger] a.drop_last()[i], SPACE)
                == tail_after_last(b.drop_last()[i], SPACE));
        lemma_shorts_concat_tokens(a.drop_last(), b.drop_last(), n);
        assert(tail_after_last(a.last(), SPACE) == tail_after_last(b.last(), SPACE));
    }
}

/// The stem depends on each author name only through its final
/// space-separated token: two author lists of the same length whose names
/// agree on those tokens derive the same filename, whatever other
/// whitespace-separated parts of the names differ.
pub proof fn lemma_derive_surname_token_only(a: Seq<Seq<u8>>, b: Seq<Seq<u8>>, year: Seq<u8>)
    requires
        a.len() == b.len(),
        forall|i: int| 0 <= i < a.len() ==> tail_after_last(a[i], SPACE) == tail_after_last(
            b[i],
            SPACE,
        ),
    ensures
        derived_filename(a, year) == derived_filename(b, year),
{
    lemma_shorts_concat_tokens(a, b, a.len());
}

proof fn lemma_shorts_concat_first(a: Seq<Seq<u8>>, n: nat)
    requires
        a.len() >= 1,
    ensures
        shorts_concat(a, n) == author_short(a[0], n) + shorts_concat(a.skip(1), n),
    decreases a.len(),
{
    if a.len() == 1 {
        assert(a.drop_last().len() == 0);
        assert(shorts_concat(a.drop_last(), n) == Seq::<u8>::empty());
        assert(a.skip(1).len() == 0);
        assert(shorts_concat(a.skip(1), n) == Seq::<u8>::empty());
        assert(a.last() == a[0]);
        assert(shorts_concat(a, n) == Seq::<u8>::empty() + author_short(a[0], n));
        assert(Seq::<u8>::empty() + author_short(a[0], n) =~= author_short(a[0], n)
            + Seq::<u8>::empty());
    } else {
        lemma_shorts_concat_first(a.drop_last(), n);
        assert(a.drop_last().skip(1) =~~= a.skip(1).drop_last());
        assert(a.skip(1).last() == a.last());
        assert(a.drop_last()[0] == a[0]);
        let x = author_short(a[0], n);
        let c = shorts_concat(a.skip(1).drop_last(), n);
        let s = author_short(a.last(), n);
        assert(shorts_concat(a.drop_last(), n) == x + c);
        assert(shorts_concat(a, n) == (x + c) + s);
        assert(shorts_concat(a.skip(1), n) == c + s);
        assert((x + c) + s =~= x + (c + s));
    }
}

/// Author order is significant: swapping the first two authors changes the
/// derived filename whenever their truncated contributions have the same
/// length but different letters.  (Two authors whose contributions
/// coincide, or differ only in length in a way that realigns the letters,
/// can leave the stem unchanged; such inputs are excluded here.)
pub proof fn lemma_derive_order_sensitive(a: Seq<Seq<u8>>, year: Seq<u8>)
    requires
        a.len() >= 2,
        author_short(a[0], a.len()).len() == author_short(a[1], a.len()).len(),
        author_short(a[0], a.len()) != author_short(a[1], a.len()),
    ensures
        derived_filename(a.update(0, a[1]).update(1, a[0]), year) != derived_filename(a, year),
{
    let n = a.len();
    let b = a.update(0, a[1]).update(1, a[0]);
    let x = author_short(a[0], n);
    let y = author_short(a[1], n);
    lemma_shorts_concat_first(a, n);
    lemma_shorts_concat_first(a.skip(1), n);
    lemma_shorts_concat_first(b, n);
    lemma_shorts_concat_first(b.skip(1), n);
    assert(a.skip(1)[0] == a[1]);
    assert(b.skip(1)[0] == a[0]);
    assert(a.skip(1).skip(1) =~~= a.skip(2));
    assert(b.skip(1).skip(1) =~~= a.skip(2));
    let rest = shorts_concat(a.skip(2), n);
    assert(shorts_concat(a, n) == x + (y + rest));
    assert(shorts_concat(b, n) == y + (x + rest));
    assert(exists|i: int| 0 <= i < x.len() && x[i] != y[i]) by {
        if forall|i: int| 0 <= i < x.len() ==> x[i] == y[i] {
            assert(x =~= y);
        }
    }
    let i = choose|i: int| 0 <= i < x.len() && x[i] != y[i];
    assert(derived_filename(a, year)[i] == x[i]);
    assert(derived_filename(b, year)[i] == y[i]);
}

/// Truncation boundary, at the filename level: a single author keeps the
/// whole filtered surname; with two or three authors each contributes its
/// first three letters at most; with four or more, its first letter at
/// most.
pub proof fn lemma_truncation_boundary(authors: Seq<Seq<u8>>, year: Seq<u8>)
    ensures
        authors.len() == 1 ==> derived_filename(authors, year) == filtered_surname(authors[0])
            + year_suffix(year) + pdf_suffix(),
        2 <= authors.len() <= 3 ==> forall|i: int|
            0 <= i < authors.len() ==> (#[trigger] author_short(
                authors[i],
                authors.len(),
            )).len() <= 3,
        authors.len() >= 4 ==> forall|i: int|
            0 <= i < authors.len() ==> (#[trigger] author_short(
                authors[i],
                authors.len(),
            )).len() <= 1,
{
    if authors.len() == 1 {
        assert(authors.drop_last().len() == 0);
        assert(shorts_concat(authors.drop_last(), 1) == Seq::<u8>::empty());
        assert(authors.last() == authors[0]);
        assert(shorts_concat(authors, 1) == Seq::<u8>::empty() + author_short(authors[0], 1));
        assert(Seq::<u8>::empty() + author_short(authors[0], 1) =~= author_short(authors[0], 1));
        assert(author_short(authors[0], 1) == filtered_surname(authors[0]));
    }
}

} // verus!
