//! The token shape in which the host toolchain hands over the configuration
//! attached to a declaration. The grammar never looks inside a delimited
//! group, so a group carries its contents as opaque source text.

use vstd::prelude::*;
use vstd::string::StrSliceExecFns;

verus! {

/// Character-wise equality of two string slices: true exactly when their
/// views coincide.
pub fn str_eq(a: &str, b: &str) -> (r: bool)
    ensures
        r == (a@ == b@),
{
    let alen = a.unicode_len();
    let blen = b.unicode_len();
    if alen != blen {
        return false;
    }
    let mut i: usize = 0;
    while i < alen
        invariant
            a@.len() == alen,
            b@.len() == blen,
            alen == blen,
            i <= alen,
            forall|j: int| 0 <= j < i ==> a@[j] == b@[j],
        decreases alen - i,
    {
        if a.get_char(i) != b.get_char(i) {
            return false;
        }
        i += 1;
    }
    proof {
        assert(a@ =~= b@);
    }
    true
}

/// The delimiter kind of a token group.
#[derive(Clone, Copy, PartialEq, Eq, Structural, Debug)]
pub enum Delim {
    Paren,
    Bracket,
    Brace,
}

/// One token of a configuration sequence.
#[derive(Debug)]
pub enum Tok {
    /// An identifier or keyword.
    Id(String),
    /// A punctuation character; the flag is true when the character is glued
    /// to the one that follows it (as in the first colon of `::`).
    Sym(char, bool),
    /// A literal, kept as its source text.
    Lit(String),
    /// A delimited group, its contents kept as opaque source text.
    Tree(Delim, String),
}

impl Tok {
    /// An explicit copy, so parsed options can own the tokens they carry.
    pub fn duplicate(&self) -> (r: Tok)
        ensures
            r == *self,
    {
        match self {
            Tok::Id(s) => Tok::Id(s.clone()),
            Tok::Sym(c, j) => Tok::Sym(*c, *j),
            Tok::Lit(s) => Tok::Lit(s.clone()),
            Tok::Tree(d, s) => Tok::Tree(*d, s.clone()),
        }
    }
}

/// Copies a sub-range of a token sequence.
pub fn duplicate_toks(ts: &Vec<Tok>, from: usize, to: usize) -> (r: Vec<Tok>)
    requires
        from <= to <= ts@.len(),
    ensures
        r@ == ts@.subrange(from as int, to as int),
{
    let mut r: Vec<Tok> = Vec::new();
    let mut i: usize = from;
    while i < to
        invariant
            from <= i <= to <= ts@.len(),
            r@ == ts@.subrange(from as int, i as int),
        decreases to - i,
    {
        r.push(ts[i].duplicate());
        proof {
            assert(ts@.subrange(from as int, i + 1 as int) =~= ts@.subrange(
                from as int,
                i as int,
            ).push(ts@[i as int]));
        }
        i += 1;
    }
    r
}

} // verus!
