//! The fixed byte strings of the pipeline: the supported repository host,
//! URL scheme prefix, the `.pdf` suffix, and the markers of the bibtex
//! block, each as a spec-level sequence with a verified builder.
use vstd::prelude::*;

verus! {

/// Bytes of `eprint.iacr.org`, the single supported repository host.
pub open spec fn supported_host() -> Seq<u8> {
    seq![101u8, 112u8, 114u8, 105u8, 110u8, 116u8, 46u8, 105u8, 97u8, 99u8, 114u8, 46u8, 111u8, 114u8, 103u8]
}

/// Bytes of `https://`.
pub open spec fn scheme_prefix() -> Seq<u8> {
    seq![104u8, 116u8, 116u8, 112u8, 115u8, 58u8, 47u8, 47u8]
}

/// Bytes of `.pdf`.
pub open spec fn pdf_suffix() -> Seq<u8> {
    seq![46u8, 112u8, 100u8, 102u8]
}

/// Bytes of `author = {`.
pub open spec fn author_prefix() -> Seq<u8> {
    seq![97u8, 117u8, 116u8, 104u8, 111u8, 114u8, 32u8, 61u8, 32u8, 123u8]
}

/// Bytes of `title = {`.
pub open spec fn title_prefix() -> Seq<u8> {
    seq![116u8, 105u8, 116u8, 108u8, 101u8, 32u8, 61u8, 32u8, 123u8]
}

/// Bytes of `},`.
pub open spec fn brace_suffix() -> Seq<u8> {
    seq![125u8, 44u8]
}

/// Bytes of ` and `, the author separator inside the bibtex author field.
pub open spec fn and_separator() -> Seq<u8> {
    seq![32u8, 97u8, 110u8, 100u8, 32u8]
}

pub const NEWLINE: u8 = 10;

pub const SLASH: u8 = 47;

pub const SPACE: u8 = 32;

pub const CARRIAGE_RETURN: u8 = 13;

pub fn supported_host_vec() -> (v: Vec<u8>)
    ensures
        v@ == supported_host(),
{
    let mut v: Vec<u8> = Vec::new();
    v.push(101);
    v.push(112);
    v.push(114);
    v.push(105);
    v.push(110);
    v.push(116);
    v.push(46);
    v.push(105);
    v.push(97);
    v.push(99);
    v.push(114);
    v.push(46);
    v.push(111);
    v.push(114);
    v.push(103);
    proof {
        assert(v@ =~= supported_host());
    }
    v
}

pub fn scheme_prefix_vec() -> (v: Vec<u8>)
    ensures
        v@ == scheme_prefix(),
{
    let mut v: Vec<u8> = Vec::new();
    v.push(104);
    v.push(116);
    v.push(116);
    v.push(112);
    v.push(115);
    v.push(58);
    v.push(47);
    v.push(47);
    proof {
        assert(v@ =~= scheme_prefix());
    }
    v
}

pub fn pdf_suffix_vec() -> (v: Vec<u8>)
    ensures
        v@ == pdf_suffix(),
{
    let mut v: Vec<u8> = Vec::new();
    v.push(46);
    v.push(112);
    v.push(100);
    v.push(102);
    proof {
        assert(v@ =~= pdf_suffix());
    }
    v
}

pub fn author_prefix_vec() -> (v: Vec<u8>)
    ensures
        v@ == author_prefix(),
{
    let mut v: Vec<u8> = Vec::new();
    v.push(97);
    v.push(117);
    v.push(116);
    v.push(104);
    v.push(111);
    v.push(114);
    v.push(32);
    v.push(61);
    v.push(32);
    v.push(123);
    proof {
        assert(v@ =~= author_prefix());
    }
    v
}

pub fn title_prefix_vec() -> (v: Vec<u8>)
    ensures
        v@ == title_prefix(),
{
    let mut v: Vec<u8> = Vec::new();
    v.push(116);
    v.push(105);
    v.push(116);
    v.push(108);
    v.push(101);
    v.push(32);
    v.push(61);
    v.push(32);
    v.push(123);
    proof {
        assert(v@ =~= title_prefix());
    }
    v
}

pub fn brace_suffix_vec() -> (v: Vec<u8>)
    ensures
        v@ == brace_suffix(),
{
    let mut v: Vec<u8> = Vec::new();
    v.push(125);
    v.push(44);
    proof {
        assert(v@ =~= brace_suffix());
    }
    v
}

pub fn and_separator_vec() -> (v: Vec<u8>)
    ensures
        v@ == and_separator(),
{
    let mut v: Vec<u8> = Vec::new();
    v.push(32);
    v.push(97);
    v.push(110);
    v.push(100);
    v.push(32);
    proof {
        assert(v@ =~= and_separator());
    }
    v
}

} // verus!
