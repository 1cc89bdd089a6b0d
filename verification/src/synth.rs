//! The code synthesizer: assembles the four derived declarations — the
//! renamed original, the storage declaration, the wrapper, and the flush
//! operation — from the validated configuration, the analyzed signature,
//! and the selected storage strategy.
//!
//! All validation failures are raised here at transformation time and abort
//! generation for the declaration; there is no partial output.

use vstd::prelude::*;
use vstd::string::StringExecFns;

use crate::diag::Diagnostic;
use crate::options::{CacheOptions, config_spec};
use crate::signature::{
    FunctionDecl, Param, RetTy, analyze_params, check_signature, duplicate_params, key_components,
    key_filter,
};
use crate::store::{
    Concurrency, ContainerType, InitExpr, cache_access_methods, construct_cache, strategy_err,
    strategy_matches,
};
use crate::tokens::Tok;

verus! {

/// The storage declaration: a lazily constructed singleton of the selected
/// container, wrapped per the concurrency policy. It lives for the entire
/// remaining program lifetime once initialized; flush empties its contents,
/// never the cell itself.
#[derive(Debug)]
pub struct StorageDecl {
    /// The name of the singleton.
    pub ident: String,
    pub container: ContainerType,
    pub init: InitExpr,
    pub concurrency: Concurrency,
}

/// The wrapper declaration that replaces the original's visible name: same
/// signature, body generated from these decisions. It builds the key from
/// the non-ignored parameters, looks the key up, and on a miss invokes the
/// renamed original — with the storage released first, so reentrant and
/// concurrent calls proceed — then stores and returns the fresh value.
#[derive(Debug)]
pub struct WrapperDecl {
    pub vis: String,
    pub name: String,
    pub params: Vec<Param>,
    pub ret: RetTy,
    /// The non-ignored parameter names, in declaration order: the key.
    pub key_names: Vec<String>,
    /// All parameter names, in order: forwarded to the renamed original.
    pub forward_names: Vec<String>,
    /// The storage singleton the wrapper reads and fills.
    pub storage_ident: String,
    /// The renamed original it invokes on a miss.
    pub original_name: String,
    pub lookup_method: String,
    pub insert_method: String,
    /// The duration expression under `TimeToLive`, verbatim; a hit older
    /// than this is treated as a miss and overwritten.
    pub time_to_live: Option<Vec<Tok>>,
    pub concurrency: Concurrency,
}

/// The flush operation: same visibility as the original, acquires the
/// storage and clears all entries.
#[derive(Debug)]
pub struct FlushDecl {
    pub vis: String,
    pub name: String,
    pub storage_ident: String,
    pub concurrency: Concurrency,
}

/// The four derived declarations of one successful transformation.
#[derive(Debug)]
pub struct ArtifactSet {
    pub renamed: FunctionDecl,
    pub storage: StorageDecl,
    pub wrapper: WrapperDecl,
    pub flush: FlushDecl,
}

/// The name under which the unmodified original stays callable.
pub open spec fn original_name_of(n: Seq<char>) -> Seq<char> {
    n + "_original"@
}

/// The name of the generated flush operation.
pub open spec fn flush_name_of(n: Seq<char>) -> Seq<char> {
    n + "_flush"@
}

/// The name of the storage singleton.
pub open spec fn storage_ident_of(n: Seq<char>) -> Seq<char> {
    "CACHE_STORE_"@ + n
}

/// The storage-sharing policy a configuration selects.
pub open spec fn concurrency_of_shared(shared: bool) -> Concurrency {
    if shared {
        Concurrency::MutexGuardedSingleton
    } else {
        Concurrency::ThreadLocalCell
    }
}

/// The diagnostic a transformation fails with, if any: the configuration's,
/// else the signature's, else the strategy conflict's.
pub open spec fn transform_err(ts: Seq<Tok>, f: FunctionDecl) -> Option<Diagnostic> {
    if config_spec(ts) is Err {
        Some(config_spec(ts)->Err_0)
    } else if analyze_params(f.params@, 0) is Err {
        Some(analyze_params(f.params@, 0)->Err_0)
    } else if strategy_err(config_spec(ts)->Ok_0) is Some {
        strategy_err(config_spec(ts)->Ok_0)
    } else {
        None
    }
}

/// Everything a successful transformation promises of its artifacts.
pub open spec fn artifacts_ok(ts: Seq<Tok>, f: FunctionDecl, a: ArtifactSet) -> bool {
    &&& config_spec(ts) is Ok
    &&& analyze_params(f.params@, 0) is Ok
    &&& {
        let cfg = config_spec(ts)->Ok_0;
        let comps = analyze_params(f.params@, 0)->Ok_0;
        let keys = key_filter(comps.0, comps.1, cfg.ignored);
        &&& strategy_err(cfg) is None
        // The renamed original: the input declaration, body untouched, under
        // the derived name.
        &&& a.renamed.name@ == original_name_of(f.name@)
        &&& a.renamed.vis == f.vis
        &&& a.renamed.params@ == f.params@
        &&& a.renamed.ret == f.ret
        &&& a.renamed.body == f.body
        // The storage declaration.
        &&& a.storage.ident@ == storage_ident_of(f.name@)
        &&& strategy_matches(cfg, keys.0, f.ret, a.storage.container, a.storage.init)
        &&& a.storage.concurrency == concurrency_of_shared(cfg.shared_cache)
        // The wrapper.
        &&& a.wrapper.vis == f.vis
        &&& a.wrapper.name == f.name
        &&& a.wrapper.params@ == f.params@
        &&& a.wrapper.ret == f.ret
        &&& a.wrapper.key_names@ == keys.1
        &&& a.wrapper.forward_names@ == comps.1
        &&& a.wrapper.storage_ident@ == storage_ident_of(f.name@)
        &&& a.wrapper.original_name@ == original_name_of(f.name@)
        &&& a.wrapper.lookup_method@ == "get"@
        &&& a.wrapper.insert_method@ == (if cfg.lru_max_entries is Some {
            "put"@
        } else {
            "insert"@
        })
        &&& match cfg.time_to_live {
            Some(e) => a.wrapper.time_to_live matches Some(v) && v@ == e,
            None => a.wrapper.time_to_live is None,
        }
        &&& a.wrapper.concurrency == concurrency_of_shared(cfg.shared_cache)
        // The flush operation.
        &&& a.flush.vis == f.vis
        &&& a.flush.name@ == flush_name_of(f.name@)
        &&& a.flush.storage_ident@ == storage_ident_of(f.name@)
        &&& a.flush.concurrency == concurrency_of_shared(cfg.shared_cache)
    }
}

/// The given name with a suffix appended.
fn with_suffix(name: &String, suffix: &str) -> (r: String)
    ensures
        r@ == name@ + suffix@,
{
    let mut r = name.clone();
    r.append(suffix);
    r
}

/// The storage singleton's name for a declaration.
fn storage_ident_for(name: &String) -> (r: String)
    ensures
        r@ == storage_ident_of(name@),
{
    let mut r = "CACHE_STORE_".to_owned();
    r.append(name.as_str());
    r
}

/// The whole transformation: parses the configuration, validates the
/// signature, selects the storage strategy, and assembles the four derived
/// declarations. Fails exactly when [`transform_err`] gives a diagnostic, and
/// then with that diagnostic; a successful result satisfies
/// [`artifacts_ok`].
pub fn transform(attr: &Vec<Tok>, func: &FunctionDecl) -> (r: Result<ArtifactSet, Diagnostic>)
    ensures
        match r {
            Ok(a) => transform_err(attr@, *func) is None && artifacts_ok(attr@, *func, a),
            Err(d) => transform_err(attr@, *func) == Some(d),
        },
{
    let options = match CacheOptions::parse(attr) {
        Ok(c) => c,
        Err(d) => {
            return Err(d);
        },
    };
    let comps = match check_signature(func) {
        Ok(c) => c,
        Err(d) => {
            return Err(d);
        },
    };
    let (tys, ns) = comps;
    proof {
        crate::signature::lemma_analyze_params_len(func.params@, 0);
    }
    let keys = key_components(&tys, &ns, &options.ignored);
    let (key_tys, key_ns) = keys;
    let (container, init) = match construct_cache(&options, key_tys, func.ret.duplicate()) {
        Ok(t) => t,
        Err(d) => {
            return Err(d);
        },
    };
    let (insert_method, lookup_method) = cache_access_methods(&options);
    let concurrency = if options.shared_cache {
        Concurrency::MutexGuardedSingleton
    } else {
        Concurrency::ThreadLocalCell
    };
    let storage_ident = storage_ident_for(&func.name);
    let original_name = with_suffix(&func.name, "_original");
    let renamed = FunctionDecl {
        vis: func.vis.clone(),
        name: original_name.clone(),
        params: duplicate_params(&func.params),
        ret: func.ret.duplicate(),
        body: func.body.clone(),
    };
    let storage = StorageDecl { ident: storage_ident.clone(), container, init, concurrency };
    let wrapper = WrapperDecl {
        vis: func.vis.clone(),
        name: func.name.clone(),
        params: duplicate_params(&func.params),
        ret: func.ret.duplicate(),
        key_names: key_ns,
        forward_names: ns,
        storage_ident: storage_ident.clone(),
        original_name,
        lookup_method,
        insert_method,
        time_to_live: options.time_to_live,
        concurrency,
    };
    let flush = FlushDecl {
        vis: func.vis.clone(),
        name: with_suffix(&func.name, "_flush"),
        storage_ident,
        concurrency,
    };
    Ok(ArtifactSet { renamed, storage, wrapper, flush })
}

} // verus!
