//! The signature analyzer: validates the shape of the annotated
//! declaration's parameter list and extracts the ordered (type, name) pairs
//! that key construction and call forwarding use.
//!
//! A method receiver cannot be cached, nor can a parameter pattern with no
//! single bindable outer name. Zero parameters is legal: the key then
//! degenerates to a unit value.

use vstd::prelude::*;

use crate::diag::{Anchor, DiagKind, Diagnostic};
use crate::tokens::str_eq;

verus! {

/// How a parameter is bound.
#[derive(Debug)]
pub enum ParamPat {
    /// A method receiver (a self-binding).
    Receiver,
    /// A single plain name; for a structural pattern, the outer bound name.
    Name(String),
    /// A pattern with no bindable outer name.
    Other,
}

/// One parameter of the declaration: its binding, and its type as opaque
/// source text.
#[derive(Debug)]
pub struct Param {
    pub pat: ParamPat,
    pub ty: String,
}

/// The declared return type; a unit type when the declaration gives none.
#[derive(Debug)]
pub enum RetTy {
    Unit,
    /// The declared type, as opaque source text.
    Host(String),
}

impl RetTy {
    /// An explicit copy.
    pub fn duplicate(&self) -> (r: RetTy)
        ensures
            r == *self,
    {
        match self {
            RetTy::Unit => RetTy::Unit,
            RetTy::Host(s) => RetTy::Host(s.clone()),
        }
    }
}

/// A function declaration as the host parser hands it over. The body and
/// the types are opaque: the pipeline moves them, never reads inside them.
#[derive(Debug)]
pub struct FunctionDecl {
    /// The visibility, as opaque source text (empty for inherited).
    pub vis: String,
    pub name: String,
    pub params: Vec<Param>,
    pub ret: RetTy,
    /// The body, passed through unmodified.
    pub body: String,
}

/// Copies a parameter list.
pub fn duplicate_params(ps: &Vec<Param>) -> (r: Vec<Param>)
    ensures
        r@ == ps@,
{
    let mut r: Vec<Param> = Vec::new();
    let mut i: usize = 0;
    while i < ps.len()
        invariant
            i <= ps@.len(),
            r@ == ps@.take(i as int),
        decreases ps@.len() - i,
    {
        let pat = match &ps[i].pat {
            ParamPat::Receiver => ParamPat::Receiver,
            ParamPat::Name(n) => ParamPat::Name(n.clone()),
            ParamPat::Other => ParamPat::Other,
        };
        r.push(Param { pat, ty: ps[i].ty.clone() });
        proof {
            assert(ps@.take(i + 1 as int) =~= ps@.take(i as int).push(ps@[i as int]));
        }
        i += 1;
    }
    proof {
        assert(ps@.take(ps@.len() as int) =~= ps@);
    }
    r
}

/// The ordered (type, name) pairs of a parameter list, or the diagnostic for
/// its first unsupported parameter; `idx` numbers the parameter that `ps`
/// starts with.
pub open spec fn analyze_params(ps: Seq<Param>, idx: nat) -> Result<
    (Seq<String>, Seq<String>),
    Diagnostic,
>
    decreases ps.len(),
{
    if ps.len() == 0 {
        Ok((Seq::empty(), Seq::empty()))
    } else {
        match ps[0].pat {
            ParamPat::Receiver => Err(
                Diagnostic { kind: DiagKind::ReceiverParameter, anchor: Anchor::Param(idx as usize) },
            ),
            ParamPat::Other => Err(
                Diagnostic {
                    kind: DiagKind::UnsupportedPattern,
                    anchor: Anchor::Param(idx as usize),
                },
            ),
            ParamPat::Name(n) => match analyze_params(ps.drop_first(), idx + 1) {
                Ok(r) => Ok((seq![ps[0].ty] + r.0, seq![n] + r.1)),
                Err(d) => Err(d),
            },
        }
    }
}

/// A successful analysis yields one type and one name per parameter.
pub proof fn lemma_analyze_params_len(ps: Seq<Param>, idx: nat)
    ensures
        analyze_params(ps, idx) matches Ok(r) ==> r.0.len() == ps.len() && r.1.len() == ps.len(),
    decreases ps.len(),
{
    if ps.len() > 0 {
        match ps[0].pat {
            ParamPat::Name(_) => {
                lemma_analyze_params_len(ps.drop_first(), idx + 1);
            },
            _ => {},
        }
    }
}

/// Validates the parameter list and returns the ordered types and names:
/// exactly what [`analyze_params`] says. An empty parameter list is legal
/// and yields empty components.
pub fn check_signature(f: &FunctionDecl) -> (r: Result<(Vec<String>, Vec<String>), Diagnostic>)
    ensures
        match r {
            Ok(c) => analyze_params(f.params@, 0) == Ok::<(Seq<String>, Seq<String>), Diagnostic>(
                (c.0@, c.1@),
            ),
            Err(d) => analyze_params(f.params@, 0) == Err::<(Seq<String>, Seq<String>), Diagnostic>(
                d,
            ),
        },
        f.params@.len() == 0 ==> r is Ok,
{
    let ghost ps = f.params@;
    let mut tys: Vec<String> = Vec::new();
    let mut ns: Vec<String> = Vec::new();
    let mut i: usize = 0;
    proof {
        assert(ps.skip(0) =~= ps);
    }
    while i < f.params.len()
        invariant
            i <= ps.len(),
            ps == f.params@,
            analyze_params(ps, 0) == (match analyze_params(ps.skip(i as int), i as nat) {
                Ok(r) => Ok::<(Seq<String>, Seq<String>), Diagnostic>((tys@ + r.0, ns@ + r.1)),
                Err(d) => Err::<(Seq<String>, Seq<String>), Diagnostic>(d),
            }),
        decreases ps.len() - i,
    {
        let ghost suf = ps.skip(i as int);
        proof {
            assert(suf[0] == ps[i as int]);
            assert(suf.drop_first() =~= ps.skip(i + 1));
        }
        match &f.params[i].pat {
            ParamPat::Receiver => {
                return Err(
                    Diagnostic { kind: DiagKind::ReceiverParameter, anchor: Anchor::Param(i) },
                );
            },
            ParamPat::Other => {
                return Err(
                    Diagnostic { kind: DiagKind::UnsupportedPattern, anchor: Anchor::Param(i) },
                );
            },
            ParamPat::Name(n) => {
                let ghost t0 = tys@;
                let ghost n0 = ns@;
                tys.push(f.params[i].ty.clone());
                ns.push(n.clone());
                proof {
                    let rest = analyze_params(ps.skip(i + 1), i as nat + 1);
                    if rest is Ok {
                        let rt = rest->Ok_0.0;
                        let rn = rest->Ok_0.1;
                        assert(t0 + (seq![ps[i as int].ty] + rt) =~= tys@ + rt);
                        assert(n0 + (seq![*n] + rn) =~= ns@ + rn);
                    }
                }
            },
        }
        i += 1;
    }
    proof {
        assert(ps.skip(ps.len() as int) =~= Seq::<Param>::empty());
        assert(tys@ + Seq::<String>::empty() =~= tys@);
        assert(ns@ + Seq::<String>::empty() =~= ns@);
    }
    Ok((tys, ns))
}

/// Is this name among the ignored ones, by characters?
pub open spec fn is_ignored(ign: Seq<String>, n: String) -> bool {
    exists|j: int| 0 <= j < ign.len() && ign[j]@ == n@
}

/// The (type, name) pairs left after dropping ignored parameters: the cache
/// key components, in declaration order.
pub open spec fn key_filter(tys: Seq<String>, ns: Seq<String>, ign: Seq<String>) -> (
    Seq<String>,
    Seq<String>,
)
    recommends
        tys.len() == ns.len(),
    decreases ns.len(),
{
    if ns.len() == 0 {
        (Seq::empty(), Seq::empty())
    } else {
        let rest = key_filter(tys.drop_first(), ns.drop_first(), ign);
        if is_ignored(ign, ns[0]) {
            rest
        } else {
            (seq![tys[0]] + rest.0, seq![ns[0]] + rest.1)
        }
    }
}

/// Whether `n` names an ignored parameter.
fn name_in(ign: &Vec<String>, n: &String) -> (r: bool)
    ensures
        r == is_ignored(ign@, *n),
{
    let mut j: usize = 0;
    while j < ign.len()
        invariant
            j <= ign@.len(),
            forall|k: int| 0 <= k < j ==> ign@[k]@ != n@,
        decreases ign@.len() - j,
    {
        if str_eq(ign[j].as_str(), n.as_str()) {
            return true;
        }
        j += 1;
    }
    false
}

/// Drops ignored parameters from the key components. Ignored parameters are
/// dropped from the key only: they are still forwarded positionally when the
/// wrapper re-invokes the original.
pub fn key_components(tys: &Vec<String>, ns: &Vec<String>, ign: &Vec<String>) -> (r: (
    Vec<String>,
    Vec<String>,
))
    requires
        tys@.len() == ns@.len(),
    ensures
        (r.0@, r.1@) == key_filter(tys@, ns@, ign@),
{
    let mut kt: Vec<String> = Vec::new();
    let mut kn: Vec<String> = Vec::new();
    let mut i: usize = 0;
    proof {
        assert(tys@.skip(0) =~= tys@);
        assert(ns@.skip(0) =~= ns@);
    }
    while i < ns.len()
        invariant
            i <= ns@.len(),
            tys@.len() == ns@.len(),
            key_filter(tys@, ns@, ign@) == (
                kt@ + key_filter(tys@.skip(i as int), ns@.skip(i as int), ign@).0,
                kn@ + key_filter(tys@.skip(i as int), ns@.skip(i as int), ign@).1,
            ),
        decreases ns@.len() - i,
    {
        proof {
            assert(tys@.skip(i as int).drop_first() =~= tys@.skip(i + 1));
            assert(ns@.skip(i as int).drop_first() =~= ns@.skip(i + 1));
            assert(ns@.skip(i as int)[0] == ns@[i as int]);
            assert(tys@.skip(i as int)[0] == tys@[i as int]);
        }
        if !name_in(ign, &ns[i]) {
            let ghost k0 = kt@;
            let ghost m0 = kn@;
            kt.push(tys[i].clone());
            kn.push(ns[i].clone());
            proof {
                let rest = key_filter(tys@.skip(i + 1), ns@.skip(i + 1), ign@);
                assert(k0 + (seq![tys@[i as int]] + rest.0) =~= kt@ + rest.0);
                assert(m0 + (seq![ns@[i as int]] + rest.1) =~= kn@ + rest.1);
            }
        }
        i += 1;
    }
    proof {
        assert(tys@.skip(ns@.len() as int) =~= Seq::<String>::empty());
        assert(ns@.skip(ns@.len() as int) =~= Seq::<String>::empty());
        assert(kt@ + Seq::<String>::empty() =~= kt@);
        assert(kn@ + Seq::<String>::empty() =~= kn@);
    }
    (kt, kn)
}

} // verus!
