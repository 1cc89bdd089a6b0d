use memo::diag::{Anchor, DiagKind};
use memo::options::{CacheOption, CacheOptions, TypePath};
use memo::tokens::{Delim, Tok};

fn id(s: &str) -> Tok {
    Tok::Id(s.to_string())
}

fn colon() -> Tok {
    Tok::Sym(':', false)
}

fn comma() -> Tok {
    Tok::Sym(',', false)
}

fn lit(s: &str) -> Tok {
    Tok::Lit(s.to_string())
}

#[test]
fn empty_config_is_default() {
    let cfg = CacheOptions::parse(&vec![]).unwrap();
    assert_eq!(cfg.lru_max_entries, None);
    assert!(cfg.time_to_live.is_none());
    assert!(!cfg.shared_cache);
    assert!(cfg.custom_hasher.is_none());
    assert!(cfg.custom_hasher_initializer.is_none());
    assert!(cfg.ignored.is_empty());
}

#[test]
fn capacity_directive() {
    let cfg = CacheOptions::parse(&vec![id("Capacity"), colon(), lit("100")]).unwrap();
    assert_eq!(cfg.lru_max_entries, Some(100));
}

#[test]
fn capacity_zero_is_malformed() {
    let err = CacheOptions::parse(&vec![id("Capacity"), colon(), lit("0")]).unwrap_err();
    assert_eq!(err.kind, DiagKind::MalformedArgument);
    assert_eq!(err.anchor, Anchor::Option(0));
}

#[test]
fn capacity_overflow_is_malformed() {
    // one more than the largest value that fits
    let err = CacheOptions::parse(&vec![id("Capacity"), colon(), lit("18446744073709551616")])
        .unwrap_err();
    assert_eq!(err.kind, DiagKind::MalformedArgument);
}

#[test]
fn capacity_huge_fits() {
    let cfg = CacheOptions::parse(&vec![id("Capacity"), colon(), lit("18446744073709551615")])
        .unwrap();
    assert_eq!(cfg.lru_max_entries, Some(u64::MAX));
}

#[test]
fn capacity_non_digit_is_malformed() {
    let err = CacheOptions::parse(&vec![id("Capacity"), colon(), lit("12a")]).unwrap_err();
    assert_eq!(err.kind, DiagKind::MalformedArgument);
}

#[test]
fn shared_cache_directive() {
    let cfg = CacheOptions::parse(&vec![id("SharedCache")]).unwrap();
    assert!(cfg.shared_cache);
}

#[test]
fn shared_cache_takes_no_argument() {
    let err = CacheOptions::parse(&vec![id("SharedCache"), colon(), lit("1")]).unwrap_err();
    assert_eq!(err.kind, DiagKind::MalformedArgument);
}

#[test]
fn time_to_live_keeps_expression_verbatim() {
    let toks = vec![
        id("TimeToLive"),
        colon(),
        id("Duration"),
        Tok::Sym(':', true),
        Tok::Sym(':', false),
        id("from_secs"),
        Tok::Tree(Delim::Paren, "2".to_string()),
    ];
    let cfg = CacheOptions::parse(&toks).unwrap();
    let expr = cfg.time_to_live.unwrap();
    assert_eq!(expr.len(), 5);
    assert!(matches!(&expr[0], Tok::Id(s) if s == "Duration"));
    assert!(matches!(&expr[4], Tok::Tree(Delim::Paren, s) if s == "2"));
}

#[test]
fn time_to_live_without_expression_is_malformed() {
    let err = CacheOptions::parse(&vec![id("TimeToLive"), colon()]).unwrap_err();
    assert_eq!(err.kind, DiagKind::MalformedArgument);
}

#[test]
fn custom_hasher_path() {
    let toks = vec![
        id("CustomHasher"),
        colon(),
        id("fxhash"),
        Tok::Sym(':', true),
        Tok::Sym(':', false),
        id("FxHashMap"),
    ];
    let cfg = CacheOptions::parse(&toks).unwrap();
    let path = cfg.custom_hasher.unwrap();
    assert_eq!(path.segments, vec!["fxhash".to_string(), "FxHashMap".to_string()]);
}

#[test]
fn hasher_init_call() {
    let toks = vec![
        id("HasherInit"),
        colon(),
        id("FxHashMap"),
        Tok::Sym(':', true),
        Tok::Sym(':', false),
        id("default"),
        Tok::Tree(Delim::Paren, "".to_string()),
    ];
    let cfg = CacheOptions::parse(&toks).unwrap();
    let call = cfg.custom_hasher_initializer.unwrap();
    assert_eq!(call.path.segments, vec!["FxHashMap".to_string(), "default".to_string()]);
    assert_eq!(call.args, "");
}

#[test]
fn hasher_init_needs_call_shape() {
    let err = CacheOptions::parse(&vec![id("HasherInit"), colon(), id("FxHashMap"), id("x")])
        .unwrap_err();
    assert_eq!(err.kind, DiagKind::MalformedArgument);
}

#[test]
fn ignore_accumulates() {
    let toks = vec![
        id("Ignore"),
        colon(),
        id("a"),
        comma(),
        id("Ignore"),
        colon(),
        id("c"),
    ];
    let cfg = CacheOptions::parse(&toks).unwrap();
    assert_eq!(cfg.ignored, vec!["a".to_string(), "c".to_string()]);
}

#[test]
fn directives_combine_and_trailing_comma_is_fine() {
    let toks = vec![
        id("Capacity"),
        colon(),
        lit("8"),
        comma(),
        id("SharedCache"),
        comma(),
    ];
    let cfg = CacheOptions::parse(&toks).unwrap();
    assert_eq!(cfg.lru_max_entries, Some(8));
    assert!(cfg.shared_cache);
}

#[test]
fn later_directive_wins() {
    let toks = vec![
        id("Capacity"),
        colon(),
        lit("8"),
        comma(),
        id("Capacity"),
        colon(),
        lit("9"),
    ];
    let cfg = CacheOptions::parse(&toks).unwrap();
    assert_eq!(cfg.lru_max_entries, Some(9));
}

#[test]
fn unknown_directive_is_reported_at_its_chunk() {
    let toks = vec![id("SharedCache"), comma(), id("Capactiy"), colon(), lit("8")];
    let err = CacheOptions::parse(&toks).unwrap_err();
    assert_eq!(err.kind, DiagKind::UnrecognizedOption);
    assert_eq!(err.anchor, Anchor::Option(1));
}

#[test]
fn empty_chunk_is_an_error() {
    let err = CacheOptions::parse(&vec![comma(), id("SharedCache")]).unwrap_err();
    assert_eq!(err.kind, DiagKind::UnrecognizedOption);
    assert_eq!(err.anchor, Anchor::Option(0));
}

#[test]
fn single_option_parses_alone() {
    let opt = CacheOption::parse(&vec![id("Capacity"), colon(), lit("42")]).unwrap();
    assert!(matches!(opt, CacheOption::LRUMaxEntries(42)));
}

#[test]
fn single_option_reports_its_failure_kind() {
    let err = CacheOption::parse(&vec![id("Capacity")]).unwrap_err();
    assert_eq!(err, DiagKind::MalformedArgument);
    let err = CacheOption::parse(&vec![id("Whatever")]).unwrap_err();
    assert_eq!(err, DiagKind::UnrecognizedOption);
}

#[test]
fn capacity_with_leading_zeros() {
    let cfg = CacheOptions::parse(&vec![id("Capacity"), colon(), lit("007")]).unwrap();
    assert_eq!(cfg.lru_max_entries, Some(7));
}

#[test]
fn missing_colon_is_malformed() {
    let err = CacheOptions::parse(&vec![id("Capacity"), lit("3"), lit("4")]).unwrap_err();
    assert_eq!(err.kind, DiagKind::MalformedArgument);
}

#[test]
fn lone_comma_is_an_error() {
    let err = CacheOptions::parse(&vec![comma()]).unwrap_err();
    assert_eq!(err.kind, DiagKind::UnrecognizedOption);
}

#[test]
fn non_identifier_start_is_unrecognized() {
    let err = CacheOptions::parse(&vec![lit("3")]).unwrap_err();
    assert_eq!(err.kind, DiagKind::UnrecognizedOption);
    assert_eq!(err.message(), "unrecognized cache option");
}

#[test]
fn type_path_duplicate_copies_segments() {
    let p = TypePath { segments: vec!["a".to_string(), "B".to_string()] };
    let q = p.duplicate();
    assert_eq!(q.segments, p.segments);
}
