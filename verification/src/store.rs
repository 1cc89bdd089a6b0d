//! The cache strategy selector: combines the validated configuration with
//! the extracted key and value types to choose a storage representation,
//! its initializer, and its access-method names.
//!
//! The decision table, in precedence order: a caller-supplied container
//! (`CustomHasher`) wins, then the bounded container (`Capacity`), then the
//! unbounded associative default. Under `TimeToLive` the stored value is
//! wrapped as (timestamp, value) whichever container was chosen. `Capacity`
//! together with `CustomHasher` is a configuration error, never silently
//! resolved, and so is `HasherInit` without `CustomHasher`; both are raised
//! here, before synthesis.

use vstd::prelude::*;

use crate::diag::{Anchor, DiagKind, Diagnostic};
use crate::options::{CacheOptions, CallExpr, ConfigG, TypePath};
use crate::signature::RetTy;

verus! {

/// Which container the storage uses.
#[derive(Debug)]
pub enum ContainerKind {
    /// The unbounded associative default.
    Unbounded,
    /// The bounded container with least-recently-used eviction.
    Bounded,
    /// A caller-supplied container type.
    Custom(TypePath),
}

/// The storage's container type: the selected container over the key tuple
/// and the (possibly timestamp-wrapped) value.
#[derive(Debug)]
pub struct ContainerType {
    pub kind: ContainerKind,
    /// The source texts of the key tuple's component types.
    pub key_parts: Vec<String>,
    /// The wrapped function's return type.
    pub value: RetTy,
    /// True when entries carry timestamps: the value half of the container's
    /// value type is (timestamp, value).
    pub timestamped: bool,
}

/// The storage's initializer expression.
#[derive(Debug)]
pub enum InitExpr {
    /// The selected container's zero-argument constructor.
    DefaultNew,
    /// The bounded container's capacity-parameterized constructor.
    WithCapacity(u64),
    /// The caller-supplied initializer from `HasherInit`.
    Custom(CallExpr),
}

/// The storage-sharing policy: one process-wide store behind a lock, or one
/// store per execution thread.
#[derive(Clone, Copy, PartialEq, Eq, Structural, Debug)]
pub enum Concurrency {
    MutexGuardedSingleton,
    ThreadLocalCell,
}

/// The conflict a configuration carries, if any. Raised before synthesis:
/// no partial output is ever produced for such a configuration.
pub open spec fn strategy_err(cfg: ConfigG) -> Option<Diagnostic> {
    if cfg.lru_max_entries is Some && cfg.custom_hasher is Some {
        Some(Diagnostic { kind: DiagKind::BoundedWithCustomContainer, anchor: Anchor::Config })
    } else if cfg.custom_hasher_initializer is Some && cfg.custom_hasher is None {
        Some(Diagnostic { kind: DiagKind::InitializerWithoutContainer, anchor: Anchor::Config })
    } else {
        None
    }
}

/// The decision table: what container type and initializer a conflict-free
/// configuration selects over the given key and value types.
pub open spec fn strategy_matches(
    cfg: ConfigG,
    key_parts: Seq<String>,
    value: RetTy,
    ct: ContainerType,
    init: InitExpr,
) -> bool {
    &&& ct.key_parts@ == key_parts
    &&& ct.value == value
    &&& ct.timestamped == (cfg.time_to_live is Some)
    &&& match cfg.custom_hasher {
        Some(p) => {
            &&& ct.kind matches ContainerKind::Custom(q) && q@ == p
            &&& match cfg.custom_hasher_initializer {
                Some(ce) => init matches InitExpr::Custom(c) && c@ == ce,
                None => init is DefaultNew,
            }
        },
        None => match cfg.lru_max_entries {
            Some(cap) => ct.kind is Bounded && init == InitExpr::WithCapacity(cap),
            None => ct.kind is Unbounded && init is DefaultNew,
        },
    }
}

/// Selects the storage representation for one transformation: exactly what
/// [`strategy_matches`] says, or the diagnostic of [`strategy_err`].
pub fn construct_cache(options: &CacheOptions, key_parts: Vec<String>, value: RetTy) -> (r: Result<
    (ContainerType, InitExpr),
    Diagnostic,
>)
    ensures
        match r {
            Ok(ti) => strategy_err(options@) is None && strategy_matches(
                options@,
                key_parts@,
                value,
                ti.0,
                ti.1,
            ),
            Err(d) => strategy_err(options@) == Some(d),
        },
{
    if options.lru_max_entries.is_some() && options.custom_hasher.is_some() {
        return Err(
            Diagnostic { kind: DiagKind::BoundedWithCustomContainer, anchor: Anchor::Config },
        );
    }
    if options.custom_hasher_initializer.is_some() && options.custom_hasher.is_none() {
        return Err(
            Diagnostic { kind: DiagKind::InitializerWithoutContainer, anchor: Anchor::Config },
        );
    }
    let timestamped = options.time_to_live.is_some();
    match &options.custom_hasher {
        Some(p) => {
            let init = match &options.custom_hasher_initializer {
                Some(ce) => InitExpr::Custom(ce.duplicate()),
                None => InitExpr::DefaultNew,
            };
            Ok(
                (
                    ContainerType {
                        kind: ContainerKind::Custom(p.duplicate()),
                        key_parts,
                        value,
                        timestamped,
                    },
                    init,
                ),
            )
        },
        None => match &options.lru_max_entries {
            Some(cap) => Ok(
                (
                    ContainerType { kind: ContainerKind::Bounded, key_parts, value, timestamped },
                    InitExpr::WithCapacity(*cap),
                ),
            ),
            None => Ok(
                (
                    ContainerType { kind: ContainerKind::Unbounded, key_parts, value, timestamped },
                    InitExpr::DefaultNew,
                ),
            ),
        },
    }
}

/// The insert and lookup method names of the selected container: `put` and
/// `get` for the bounded container, `insert` and `get` otherwise.
pub fn cache_access_methods(options: &CacheOptions) -> (r: (String, String))
    ensures
        r.0@ == (if options@.lru_max_entries is Some {
            "put"@
        } else {
            "insert"@
        }),
        r.1@ == "get"@,
{
    match &options.lru_max_entries {
        Some(_) => ("put".to_owned(), "get".to_owned()),
        None => ("insert".to_owned(), "get".to_owned()),
    }
}

} // verus!
