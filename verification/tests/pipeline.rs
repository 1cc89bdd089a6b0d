use memo::diag::{Anchor, DiagKind};
use memo::options::CacheOptions;
use memo::signature::{FunctionDecl, Param, ParamPat, RetTy, check_signature};
use memo::store::{Concurrency, ContainerKind, InitExpr, cache_access_methods, construct_cache};
use memo::synth::transform;
use memo::tokens::Tok;

fn id(s: &str) -> Tok {
    Tok::Id(s.to_string())
}

fn colon() -> Tok {
    Tok::Sym(':', false)
}

fn comma() -> Tok {
    Tok::Sym(',', false)
}

fn lit(s: &str) -> Tok {
    Tok::Lit(s.to_string())
}

fn named(name: &str, ty: &str) -> Param {
    Param { pat: ParamPat::Name(name.to_string()), ty: ty.to_string() }
}

fn add_decl() -> FunctionDecl {
    FunctionDecl {
        vis: "pub".to_string(),
        name: "add".to_string(),
        params: vec![
            named("a", "u32"),
            named("b", "u32"),
            named("c", "u32"),
            named("d", "u32"),
        ],
        ret: RetTy::Host("u32".to_string()),
        body: "{ a + b + c + d }".to_string(),
    }
}

#[test]
fn empty_signature_is_legal() {
    let f = FunctionDecl {
        vis: String::new(),
        name: "answer".to_string(),
        params: vec![],
        ret: RetTy::Host("u64".to_string()),
        body: "{ 42 }".to_string(),
    };
    let (tys, ns) = check_signature(&f).unwrap();
    assert!(tys.is_empty());
    assert!(ns.is_empty());
}

#[test]
fn receiver_is_rejected() {
    let f = FunctionDecl {
        vis: String::new(),
        name: "m".to_string(),
        params: vec![Param { pat: ParamPat::Receiver, ty: "Self".to_string() }, named("x", "u32")],
        ret: RetTy::Unit,
        body: "{}".to_string(),
    };
    let err = check_signature(&f).unwrap_err();
    assert_eq!(err.kind, DiagKind::ReceiverParameter);
    assert_eq!(err.anchor, Anchor::Param(0));
    assert_eq!(err.message(), "receiver-bound operations are not memoizable");
}

#[test]
fn arbitrary_pattern_is_rejected() {
    let f = FunctionDecl {
        vis: String::new(),
        name: "m".to_string(),
        params: vec![named("x", "u32"), Param { pat: ParamPat::Other, ty: "(u32, u32)".to_string() }],
        ret: RetTy::Unit,
        body: "{}".to_string(),
    };
    let err = check_signature(&f).unwrap_err();
    assert_eq!(err.kind, DiagKind::UnsupportedPattern);
    assert_eq!(err.anchor, Anchor::Param(1));
    assert_eq!(err.message(), "arbitrary patterns are not memoizable");
}

#[test]
fn signature_extracts_types_and_names_in_order() {
    let (tys, ns) = check_signature(&add_decl()).unwrap();
    assert_eq!(tys, vec!["u32"; 4].iter().map(|s| s.to_string()).collect::<Vec<_>>());
    assert_eq!(
        ns,
        vec!["a", "b", "c", "d"].iter().map(|s| s.to_string()).collect::<Vec<_>>()
    );
}

#[test]
fn default_strategy_is_unbounded_insert_get() {
    let opts = CacheOptions::parse(&vec![]).unwrap();
    let (ct, init) = construct_cache(&opts, vec!["u32".to_string()], RetTy::Host("u32".to_string()))
        .unwrap();
    assert!(matches!(ct.kind, ContainerKind::Unbounded));
    assert!(!ct.timestamped);
    assert!(matches!(init, InitExpr::DefaultNew));
    let (ins, get) = cache_access_methods(&opts);
    assert_eq!(ins, "insert");
    assert_eq!(get, "get");
}

#[test]
fn capacity_strategy_is_bounded_put_get() {
    let opts = CacheOptions::parse(&vec![id("Capacity"), colon(), lit("3")]).unwrap();
    let (ct, init) = construct_cache(&opts, vec![], RetTy::Unit).unwrap();
    assert!(matches!(ct.kind, ContainerKind::Bounded));
    assert!(matches!(init, InitExpr::WithCapacity(3)));
    let (ins, get) = cache_access_methods(&opts);
    assert_eq!(ins, "put");
    assert_eq!(get, "get");
}

#[test]
fn time_to_live_wraps_value_with_timestamp() {
    let opts = CacheOptions::parse(&vec![id("TimeToLive"), colon(), lit("2")]).unwrap();
    let (ct, _) = construct_cache(&opts, vec![], RetTy::Unit).unwrap();
    assert!(ct.timestamped);
}

#[test]
fn bounded_and_custom_container_conflict() {
    let toks = vec![
        id("Capacity"),
        colon(),
        lit("3"),
        comma(),
        id("CustomHasher"),
        colon(),
        id("MyMap"),
    ];
    let opts = CacheOptions::parse(&toks).unwrap();
    let err = construct_cache(&opts, vec![], RetTy::Unit).unwrap_err();
    assert_eq!(err.kind, DiagKind::BoundedWithCustomContainer);
    assert_eq!(err.anchor, Anchor::Config);
    assert_eq!(
        err.message(),
        "cannot use bounded cache and a custom container simultaneously"
    );
}

#[test]
fn initializer_without_container_is_an_error() {
    let toks = vec![
        id("HasherInit"),
        colon(),
        id("MyMap"),
        Tok::Tree(memo::tokens::Delim::Paren, "".to_string()),
    ];
    let opts = CacheOptions::parse(&toks).unwrap();
    let err = construct_cache(&opts, vec![], RetTy::Unit).unwrap_err();
    assert_eq!(err.kind, DiagKind::InitializerWithoutContainer);
}

#[test]
fn custom_container_uses_given_initializer() {
    let toks = vec![
        id("CustomHasher"),
        colon(),
        id("MyMap"),
        comma(),
        id("HasherInit"),
        colon(),
        id("MyMap"),
        Tok::Sym(':', true),
        Tok::Sym(':', false),
        id("default"),
        Tok::Tree(memo::tokens::Delim::Paren, "".to_string()),
    ];
    let opts = CacheOptions::parse(&toks).unwrap();
    let (ct, init) = construct_cache(&opts, vec![], RetTy::Unit).unwrap();
    match ct.kind {
        ContainerKind::Custom(p) => assert_eq!(p.segments, vec!["MyMap".to_string()]),
        _ => panic!("expected the custom container"),
    }
    match init {
        InitExpr::Custom(c) => {
            assert_eq!(c.path.segments, vec!["MyMap".to_string(), "default".to_string()]);
        },
        _ => panic!("expected the caller's initializer"),
    }
}

#[test]
fn transform_derives_all_four_artifacts() {
    let attr = vec![id("Ignore"), colon(), id("c")];
    let a = transform(&attr, &add_decl()).unwrap();

    assert_eq!(a.renamed.name, "add_original");
    assert_eq!(a.renamed.vis, "pub");
    assert_eq!(a.renamed.body, "{ a + b + c + d }");
    assert_eq!(a.renamed.params.len(), 4);

    assert_eq!(a.storage.ident, "CACHE_STORE_add");
    assert!(matches!(a.storage.container.kind, ContainerKind::Unbounded));
    assert_eq!(a.storage.container.key_parts, vec!["u32"; 3]);
    assert!(!a.storage.container.timestamped);
    assert_eq!(a.storage.concurrency, Concurrency::ThreadLocalCell);

    assert_eq!(a.wrapper.name, "add");
    assert_eq!(a.wrapper.vis, "pub");
    assert_eq!(a.wrapper.key_names, vec!["a", "b", "d"]);
    assert_eq!(a.wrapper.forward_names, vec!["a", "b", "c", "d"]);
    assert_eq!(a.wrapper.storage_ident, "CACHE_STORE_add");
    assert_eq!(a.wrapper.original_name, "add_original");
    assert_eq!(a.wrapper.lookup_method, "get");
    assert_eq!(a.wrapper.insert_method, "insert");
    assert!(a.wrapper.time_to_live.is_none());

    assert_eq!(a.flush.name, "add_flush");
    assert_eq!(a.flush.vis, "pub");
    assert_eq!(a.flush.storage_ident, "CACHE_STORE_add");
}

#[test]
fn transform_with_capacity_and_shared_cache() {
    let attr = vec![
        id("Capacity"),
        colon(),
        lit("2"),
        comma(),
        id("SharedCache"),
    ];
    let a = transform(&attr, &add_decl()).unwrap();
    assert!(matches!(a.storage.container.kind, ContainerKind::Bounded));
    assert!(matches!(a.storage.init, InitExpr::WithCapacity(2)));
    assert_eq!(a.storage.concurrency, Concurrency::MutexGuardedSingleton);
    assert_eq!(a.wrapper.insert_method, "put");
}

#[test]
fn transform_of_zero_parameter_function_succeeds() {
    let f = FunctionDecl {
        vis: String::new(),
        name: "answer".to_string(),
        params: vec![],
        ret: RetTy::Host("u64".to_string()),
        body: "{ 42 }".to_string(),
    };
    let a = transform(&vec![], &f).unwrap();
    assert!(a.wrapper.key_names.is_empty());
    assert!(a.wrapper.forward_names.is_empty());
    assert!(a.storage.container.key_parts.is_empty());
    assert_eq!(a.renamed.name, "answer_original");
}

#[test]
fn transform_propagates_config_errors() {
    let attr = vec![id("Nonsense")];
    let err = transform(&attr, &add_decl()).unwrap_err();
    assert_eq!(err.kind, DiagKind::UnrecognizedOption);
    assert_eq!(err.message(), "unrecognized cache option");
}

#[test]
fn transform_propagates_signature_errors() {
    let f = FunctionDecl {
        vis: String::new(),
        name: "m".to_string(),
        params: vec![Param { pat: ParamPat::Receiver, ty: "Self".to_string() }],
        ret: RetTy::Unit,
        body: "{}".to_string(),
    };
    let err = transform(&vec![], &f).unwrap_err();
    assert_eq!(err.kind, DiagKind::ReceiverParameter);
}

#[test]
fn transform_raises_conflicts_before_synthesis() {
    let attr = vec![
        id("Capacity"),
        colon(),
        lit("3"),
        comma(),
        id("CustomHasher"),
        colon(),
        id("MyMap"),
    ];
    let err = transform(&attr, &add_decl()).unwrap_err();
    assert_eq!(err.kind, DiagKind::BoundedWithCustomContainer);
}

#[test]
fn transform_keeps_time_to_live_verbatim() {
    let attr = vec![id("TimeToLive"), colon(), lit("2")];
    let a = transform(&attr, &add_decl()).unwrap();
    assert!(a.storage.container.timestamped);
    let ttl = a.wrapper.time_to_live.unwrap();
    assert_eq!(ttl.len(), 1);
    assert!(matches!(&ttl[0], Tok::Lit(s) if s == "2"));
}
