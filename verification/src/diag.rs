//! Central error construction. Every validation failure of the pipeline is
//! a [`Diagnostic`]: a kind plus an anchor pointing at the offending syntax.
//! A diagnostic always aborts the transformation of its declaration; no
//! partial output is ever produced.

use vstd::prelude::*;

verus! {

/// What went wrong.
#[derive(Clone, Copy, PartialEq, Eq, Structural, Debug)]
pub enum DiagKind {
    /// A directive name the configuration grammar does not know.
    UnrecognizedOption,
    /// A recognized directive whose argument has the wrong shape.
    MalformedArgument,
    /// `Capacity` together with `CustomHasher`.
    BoundedWithCustomContainer,
    /// `HasherInit` without `CustomHasher`.
    InitializerWithoutContainer,
    /// A method receiver among the parameters.
    ReceiverParameter,
    /// A parameter pattern with no single bindable outer name.
    UnsupportedPattern,
}

/// Where a failure is anchored, so the host toolchain can point at the
/// offending syntax element.
#[derive(Clone, Copy, PartialEq, Eq, Structural, Debug)]
pub enum Anchor {
    /// The comma-separated configuration chunk at this position.
    Option(usize),
    /// The configuration as a whole.
    Config,
    /// The parameter at this position of the declaration.
    Param(usize),
}

/// A validation failure, anchored to the offending syntax.
#[derive(Clone, Copy, PartialEq, Eq, Structural, Debug)]
pub struct Diagnostic {
    pub kind: DiagKind,
    pub anchor: Anchor,
}

/// The wording that each failure kind surfaces through the host toolchain.
pub open spec fn message_of(k: DiagKind) -> Seq<char> {
    match k {
        DiagKind::UnrecognizedOption => "unrecognized cache option"@,
        DiagKind::MalformedArgument => "malformed cache option argument"@,
        DiagKind::BoundedWithCustomContainer => (
        "cannot use bounded cache and a custom container simultaneously"@),
        DiagKind::InitializerWithoutContainer => (
        "HasherInit is only valid together with CustomHasher"@),
        DiagKind::ReceiverParameter => "receiver-bound operations are not memoizable"@,
        DiagKind::UnsupportedPattern => "arbitrary patterns are not memoizable"@,
    }
}

impl Diagnostic {
    /// The human-readable message of this diagnostic.
    pub fn message(&self) -> (r: String)
        ensures
            r@ == message_of(self.kind),
    {
        match self.kind {
            DiagKind::UnrecognizedOption => "unrecognized cache option".to_owned(),
            DiagKind::MalformedArgument => "malformed cache option argument".to_owned(),
            DiagKind::BoundedWithCustomContainer => (
            "cannot use bounded cache and a custom container simultaneously".to_owned()),
            DiagKind::InitializerWithoutContainer => (
            "HasherInit is only valid together with CustomHasher".to_owned()),
            DiagKind::ReceiverParameter => "receiver-bound operations are not memoizable".to_owned(),
            DiagKind::UnsupportedPattern => "arbitrary patterns are not memoizable".to_owned(),
        }
    }
}

} // verus!
