//! Byte-string building blocks: the spec-level models of the text operations
//! the pipeline performs (prefix/suffix stripping, trimming, splitting), and
//! verified executable counterparts working on `Vec<u8>`.
use vstd::prelude::*;

verus! {

/// ASCII letter, upper or lower case.
pub open spec fn is_ascii_alpha(b: u8) -> bool {
    (65 <= b && b <= 90) || (97 <= b && b <= 122)
}

/// ASCII whitespace: space, tab, line feed, form feed, carriage return.
pub open spec fn is_ascii_ws(b: u8) -> bool {
    b == 32 || b == 9 || b == 10 || b == 12 || b == 13
}

pub open spec fn starts_with(s: Seq<u8>, p: Seq<u8>) -> bool {
    p.len() <= s.len() && s.take(p.len() as int) == p
}

pub open spec fn ends_with(s: Seq<u8>, p: Seq<u8>) -> bool {
    p.len() <= s.len() && s.skip(s.len() - p.len()) == p
}

/// Everything before the first occurrence of `sep`; the whole of `s` when
/// `sep` does not occur.
pub open spec fn head_before(s: Seq<u8>, sep: u8) -> Seq<u8>
    decreases s.len(),
{
    if s.len() == 0 {
        s
    } else if s[0] == sep {
        Seq::empty()
    } else {
        seq![s[0]] + head_before(s.skip(1), sep)
    }
}

/// Everything after the first occurrence of `sep`; `None` when `sep` does
/// not occur.
pub open spec fn rest_after(s: Seq<u8>, sep: u8) -> Option<Seq<u8>>
    decreases s.len(),
{
    if s.len() == 0 {
        None
    } else if s[0] == sep {
        Some(s.skip(1))
    } else {
        rest_after(s.skip(1), sep)
    }
}

/// Everything after the last occurrence of `sep`; the whole of `s` when
/// `sep` does not occur.
pub open spec fn tail_after_last(s: Seq<u8>, sep: u8) -> Seq<u8>
    decreases s.len(),
{
    if s.len() == 0 {
        s
    } else if s.last() == sep {
        Seq::empty()
    } else {
        tail_after_last(s.drop_last(), sep).push(s.last())
    }
}

/// The subsequence of ASCII letters of `s`, in order.
pub open spec fn filter_alpha(s: Seq<u8>) -> Seq<u8>
    decreases s.len(),
{
    if s.len() == 0 {
        s
    } else if is_ascii_alpha(s.last()) {
        filter_alpha(s.drop_last()).push(s.last())
    } else {
        filter_alpha(s.drop_last())
    }
}

/// `s` with every leading copy of `p` removed.
pub open spec fn strip_prefix_all(s: Seq<u8>, p: Seq<u8>) -> Seq<u8>
    decreases s.len(),
{
    if p.len() == 0 {
        s
    } else if starts_with(s, p) {
        strip_prefix_all(s.skip(p.len() as int), p)
    } else {
        s
    }
}

/// `s` with every trailing copy of `p` removed.
pub open spec fn strip_suffix_all(s: Seq<u8>, p: Seq<u8>) -> Seq<u8>
    decreases s.len(),
{
    if p.len() == 0 {
        s
    } else if ends_with(s, p) {
        strip_suffix_all(s.take(s.len() - p.len()), p)
    } else {
        s
    }
}

/// `s` without its leading ASCII whitespace.
pub open spec fn trim_start(s: Seq<u8>) -> Seq<u8>
    decreases s.len(),
{
    if s.len() > 0 && is_ascii_ws(s[0]) {
        trim_start(s.skip(1))
    } else {
        s
    }
}

/// `s` without its trailing ASCII whitespace.
pub open spec fn trim_end(s: Seq<u8>) -> Seq<u8>
    decreases s.len(),
{
    if s.len() > 0 && is_ascii_ws(s.last()) {
        trim_end(s.drop_last())
    } else {
        s
    }
}

/// `s` without leading and trailing ASCII whitespace.
pub open spec fn trim(s: Seq<u8>) -> Seq<u8> {
    trim_end(trim_start(s))
}

/// The pieces of `s` between non-overlapping occurrences of `sep`, scanned
/// left to right; always at least one piece.
pub open spec fn split_on(s: Seq<u8>, sep: Seq<u8>) -> Seq<Seq<u8>>
    decreases s.len(),
{
    if sep.len() == 0 {
        seq![s]
    } else if starts_with(s, sep) {
        seq![Seq::<u8>::empty()] + split_on(s.skip(sep.len() as int), sep)
    } else if s.len() == 0 {
        seq![s]
    } else {
        let r = split_on(s.skip(1), sep);
        seq![seq![s[0]] + r[0]] + r.skip(1)
    }
}

pub proof fn lemma_split_on_nonempty(s: Seq<u8>, sep: Seq<u8>)
    ensures
        split_on(s, sep).len() >= 1,
    decreases s.len(),
{
    if sep.len() == 0 {
    } else if starts_with(s, sep) {
        lemma_split_on_nonempty(s.skip(sep.len() as int), sep);
    } else if s.len() == 0 {
    } else {
        lemma_split_on_nonempty(s.skip(1), sep);
    }
}

proof fn lemma_scan_found(s: Seq<u8>, sep: u8, k: int)
    requires
        0 <= k < s.len(),
        s[k] == sep,
        forall|j: int| 0 <= j < k ==> s[j] != sep,
    ensures
        head_before(s, sep) == s.take(k),
        rest_after(s, sep) == Some(s.skip(k + 1)),
    decreases k,
{
    if k == 0 {
        assert(head_before(s, sep) =~= s.take(0));
    } else {
        lemma_scan_found(s.skip(1), sep, k - 1);
        assert(seq![s[0]] + s.skip(1).take(k - 1) =~= s.take(k));
        assert(s.skip(1).skip(k) =~= s.skip(k + 1));
    }
}

proof fn lemma_scan_none(s: Seq<u8>, sep: u8)
    requires
        forall|j: int| 0 <= j < s.len() ==> s[j] != sep,
    ensures
        head_before(s, sep) == s,
        rest_after(s, sep) is None,
    decreases s.len(),
{
    if s.len() > 0 {
        lemma_scan_none(s.skip(1), sep);
        assert(seq![s[0]] + s.skip(1) =~= s);
    }
}

/// Index of the first occurrence of `sep` in `s`, tied to the spec-level
/// `head_before` and `rest_after` decompositions.
pub fn find_byte(s: &Vec<u8>, sep: u8) -> (r: Option<usize>)
    ensures
        match r {
            Some(k) => {
                &&& k < s@.len()
                &&& s@[k as int] == sep
                &&& head_before(s@, sep) == s@.take(k as int)
                &&& rest_after(s@, sep) == Some(s@.skip(k as int + 1))
            },
            None => {
                &&& head_before(s@, sep) == s@
                &&& rest_after(s@, sep) is None
            },
        },
{
    let mut i: usize = 0;
    while i < s.len()
        invariant
            i <= s@.len(),
            forall|j: int| 0 <= j < i ==> s@[j] != sep,
        decreases s@.len() - i,
    {
        if s[i] == sep {
            proof {
                lemma_scan_found(s@, sep, i as int);
            }
            return Some(i);
        }
        i += 1;
    }
    proof {
        lemma_scan_none(s@, sep);
    }
    None
}

/// A copy of `s[a..b]`.
pub fn subvec(s: &Vec<u8>, a: usize, b: usize) -> (r: Vec<u8>)
    requires
        a <= b <= s@.len(),
    ensures
        r@ == s@.subrange(a as int, b as int),
{
    let mut r: Vec<u8> = Vec::new();
    let mut i: usize = a;
    while i < b
        invariant
            a <= i <= b <= s@.len(),
            r@ == s@.subrange(a as int, i as int),
        decreases b - i,
    {
        r.push(s[i]);
        proof {
            assert(r@ =~= s@.subrange(a as int, i + 1));
        }
        i += 1;
    }
    r
}

pub fn starts_with_exec(s: &Vec<u8>, p: &Vec<u8>) -> (r: bool)
    ensures
        r == starts_with(s@, p@),
{
    if p.len() > s.len() {
        return false;
    }
    let mut i: usize = 0;
    while i < p.len()
        invariant
            i <= p@.len() <= s@.len(),
            forall|j: int| 0 <= j < i ==> s@[j] == p@[j],
        decreases p@.len() - i,
    {
        if s[i] != p[i] {
            proof {
                assert(s@.take(p@.len() as int)[i as int] != p@[i as int]);
            }
            return false;
        }
        i += 1;
    }
    proof {
        assert(s@.take(p@.len() as int) =~= p@);
    }
    true
}

pub fn ends_with_exec(s: &Vec<u8>, p: &Vec<u8>) -> (r: bool)
    ensures
        r == ends_with(s@, p@),
{
    if p.len() > s.len() {
        return false;
    }
    let n: usize = s.len();
    let off: usize = n - p.len();
    let mut i: usize = 0;
    while i < p.len()
        invariant
            i <= p@.len() <= s@.len(),
            n == s@.len(),
            off == s@.len() - p@.len(),
            forall|j: int| 0 <= j < i ==> s@[off + j] == p@[j],
        decreases p@.len() - i,
    {
        proof {
            assert(off + i < n);
        }
        if s[off + i] != p[i] {
            proof {
                assert(s@.skip(off as int)[i as int] != p@[i as int]);
            }
            return false;
        }
        i += 1;
    }
    proof {
        assert(s@.skip(off as int) =~= p@);
    }
    true
}

pub fn strip_prefix_all_exec(s: &Vec<u8>, p: &Vec<u8>) -> (r: Vec<u8>)
    requires
        p@.len() >= 1,
    ensures
        r@ == strip_prefix_all(s@, p@),
    decreases s@.len(),
{
    if starts_with_exec(s, p) {
        let rest = subvec(s, p.len(), s.len());
        proof {
            assert(rest@ =~= s@.skip(p@.len() as int));
        }
        strip_prefix_all_exec(&rest, p)
    } else {
        subvec(s, 0, s.len())
    }
}

pub fn strip_suffix_all_exec(s: &Vec<u8>, p: &Vec<u8>) -> (r: Vec<u8>)
    requires
        p@.len() >= 1,
    ensures
        r@ == strip_suffix_all(s@, p@),
    decreases s@.len(),
{
    if ends_with_exec(s, p) {
        let head = subvec(s, 0, s.len() - p.len());
        proof {
            assert(head@ =~= s@.take(s@.len() - p@.len()));
        }
        strip_suffix_all_exec(&head, p)
    } else {
        subvec(s, 0, s.len())
    }
}

/// The stripped result carries no further copy of the suffix.
pub proof fn lemma_strip_suffix_all_clean(s: Seq<u8>, p: Seq<u8>)
    requires
        p.len() >= 1,
    ensures
        !ends_with(strip_suffix_all(s, p), p),
    decreases s.len(),
{
    if ends_with(s, p) {
        lemma_strip_suffix_all_clean(s.take(s.len() - p.len()), p);
    }
}

fn is_ws_exec(b: u8) -> (r: bool)
    ensures
        r == is_ascii_ws(b),
{
    b == 32 || b == 9 || b == 10 || b == 12 || b == 13
}

pub fn trim_start_exec(s: &Vec<u8>) -> (r: Vec<u8>)
    ensures
        r@ == trim_start(s@),
    decreases s@.len(),
{
    if s.len() > 0 && is_ws_exec(s[0]) {
        let rest = subvec(s, 1, s.len());
        proof {
            assert(rest@ =~= s@.skip(1));
        }
        trim_start_exec(&rest)
    } else {
        subvec(s, 0, s.len())
    }
}

pub fn trim_end_exec(s: &Vec<u8>) -> (r: Vec<u8>)
    ensures
        r@ == trim_end(s@),
    decreases s@.len(),
{
    if s.len() > 0 && is_ws_exec(s[s.len() - 1]) {
        let head = subvec(s, 0, s.len() - 1);
        proof {
            assert(head@ =~= s@.drop_last());
        }
        trim_end_exec(&head)
    } else {
        subvec(s, 0, s.len())
    }
}

pub fn trim_exec(s: &Vec<u8>) -> (r: Vec<u8>)
    ensures
        r@ == trim(s@),
{
    let t = trim_start_exec(s);
    trim_end_exec(&t)
}

pub fn filter_alpha_exec(s: &Vec<u8>) -> (r: Vec<u8>)
    ensures
        r@ == filter_alpha(s@),
{
    let mut r: Vec<u8> = Vec::new();
    let mut i: usize = 0;
    while i < s.len()
        invariant
            i <= s@.len(),
            r@ == filter_alpha(s@.take(i as int)),
        decreases s@.len() - i,
    {
        let b = s[i];
        proof {
            assert(s@.take(i + 1).drop_last() =~= s@.take(i as int));
            assert(s@.take(i + 1).last() == s@[i as int]);
        }
        if (65 <= b && b <= 90) || (97 <= b && b <= 122) {
            r.push(b);
        }
        i += 1;
    }
    proof {
        assert(s@.take(s@.len() as int) =~= s@);
    }
    r
}

pub fn tail_after_last_exec(s: &Vec<u8>, sep: u8) -> (r: Vec<u8>)
    ensures
        r@ == tail_after_last(s@, sep),
    decreases s@.len(),
{
    if s.len() == 0 {
        Vec::new()
    } else if s[s.len() - 1] == sep {
        Vec::new()
    } else {
        let head = subvec(s, 0, s.len() - 1);
        proof {
            assert(head@ =~= s@.drop_last());
        }
        let mut r = tail_after_last_exec(&head, sep);
        r.push(s[s.len() - 1]);
        r
    }
}

pub fn split_on_exec(s: &Vec<u8>, sep: &Vec<u8>) -> (r: Vec<Vec<u8>>)
    requires
        sep@.len() >= 1,
    ensures
        r.deep_view() == split_on(s@, sep@),
        r@.len() >= 1,
    decreases s@.len(),
{
    proof {
        lemma_split_on_nonempty(s@, sep@);
    }
    if starts_with_exec(s, sep) {
        let rest = subvec(s, sep.len(), s.len());
        proof {
            assert(rest@ =~= s@.skip(sep@.len() as int));
        }
        let mut r = split_on_exec(&rest, sep);
        r.insert(0, Vec::new());
        proof {
            assert(r.deep_view() =~~= split_on(s@, sep@));
        }
        r
    } else if s.len() == 0 {
        let mut r: Vec<Vec<u8>> = Vec::new();
        r.push(Vec::new());
        proof {
            assert(r.deep_view() =~~= split_on(s@, sep@));
        }
        r
    } else {
        let rest = subvec(s, 1, s.len());
        proof {
            assert(rest@ =~= s@.skip(1));
        }
        let mut r = split_on_exec(&rest, sep);
        let mut first = r.remove(0);
        first.insert(0, s[0]);
        r.insert(0, first);
        proof {
            assert(r.deep_view() =~~= split_on(s@, sep@));
        }
        r
    }
}

/// Byte-wise equality of two vectors.
pub fn bytes_eq(a: &Vec<u8>, b: &Vec<u8>) -> (r: bool)
    ensures
        r == (a@ == b@),
{
    if a.len() != b.len() {
        proof {
            assert(a@.len() != b@.len());
        }
        return false;
    }
    let mut i: usize = 0;
    while i < a.len()
        invariant
            i <= a@.len(),
            a@.len() == b@.len(),
            forall|j: int| 0 <= j < i ==> a@[j] == b@[j],
        decreases a@.len() - i,
    {
        if a[i] != b[i] {
            return false;
        }
        i += 1;
    }
    proof {
        assert(a@ =~= b@);
    }
    true
}

} // verus!
