//! The option parser: consumes the raw configuration token sequence attached
//! to a declaration and produces a validated [`CacheOptions`] or a
//! [`Diagnostic`].
//!
//! The grammar is a comma-separated, order-independent list of directives:
//! `Capacity: <positive integer literal>`, `TimeToLive: <expression>`,
//! `SharedCache`, `CustomHasher: <type path>`, `HasherInit: <call
//! expression>`, and `Ignore: <identifier>` (repeatable). An empty sequence
//! yields the default configuration. The whole grammar is pinned by
//! [`config_spec`], and [`CacheOptions::parse`] returns exactly what it says.

use vstd::prelude::*;
use vstd::string::StrSliceExecFns;

use crate::diag::{Anchor, DiagKind, Diagnostic};
use crate::tokens::{Delim, Tok, duplicate_toks, str_eq};

verus! {

/// A type path `a::b::C`, as its segment names.
#[derive(Debug)]
pub struct TypePath {
    pub segments: Vec<String>,
}

impl View for TypePath {
    type V = Seq<String>;

    open spec fn view(&self) -> Seq<String> {
        self.segments@
    }
}

impl TypePath {
    /// An explicit copy.
    pub fn duplicate(&self) -> (r: TypePath)
        ensures
            r@ == self@,
    {
        let mut segs: Vec<String> = Vec::new();
        let mut i: usize = 0;
        while i < self.segments.len()
            invariant
                i <= self.segments@.len(),
                segs@ == self.segments@.take(i as int),
            decreases self.segments@.len() - i,
        {
            segs.push(self.segments[i].clone());
            proof {
                assert(self.segments@.take(i + 1 as int) =~= self.segments@.take(
                    i as int,
                ).push(self.segments@[i as int]));
            }
            i += 1;
        }
        proof {
            assert(self.segments@.take(self.segments@.len() as int) =~= self.segments@);
        }
        TypePath { segments: segs }
    }
}

/// A call expression `path(args)`, its arguments kept as opaque source text.
#[derive(Debug)]
pub struct CallExpr {
    pub path: TypePath,
    pub args: String,
}

impl View for CallExpr {
    type V = (Seq<String>, String);

    open spec fn view(&self) -> (Seq<String>, String) {
        (self.path@, self.args)
    }
}

impl CallExpr {
    /// An explicit copy.
    pub fn duplicate(&self) -> (r: CallExpr)
        ensures
            r@ == self@,
    {
        CallExpr { path: self.path.duplicate(), args: self.args.clone() }
    }
}

/// One parsed directive.
#[derive(Debug)]
pub enum CacheOption {
    /// `Capacity: n` — bounded storage with least-recently-used eviction.
    LRUMaxEntries(u64),
    /// `TimeToLive: e` — entries carry timestamps; `e` is kept verbatim.
    TimeToLive(Vec<Tok>),
    /// `SharedCache` — one process-wide store instead of one per thread.
    SharedCache,
    /// `CustomHasher: path` — a caller-supplied container type.
    CustomHasher(TypePath),
    /// `HasherInit: call` — the caller-supplied container initializer.
    HasherInit(CallExpr),
    /// `Ignore: name` — drop this parameter from the cache key.
    Ignore(String),
}

/// The spec-level value of one parsed directive.
pub ghost enum OptG {
    LRUMaxEntries(u64),
    TimeToLive(Seq<Tok>),
    SharedCache,
    CustomHasher(Seq<String>),
    HasherInit(Seq<String>, String),
    Ignore(String),
}

impl View for CacheOption {
    type V = OptG;

    open spec fn view(&self) -> OptG {
        match self {
            CacheOption::LRUMaxEntries(n) => OptG::LRUMaxEntries(*n),
            CacheOption::TimeToLive(e) => OptG::TimeToLive(e@),
            CacheOption::SharedCache => OptG::SharedCache,
            CacheOption::CustomHasher(p) => OptG::CustomHasher(p@),
            CacheOption::HasherInit(c) => OptG::HasherInit(c.path@, c.args),
            CacheOption::Ignore(n) => OptG::Ignore(*n),
        }
    }
}

/// The validated configuration, built once per transformation.
#[derive(Debug)]
pub struct CacheOptions {
    /// Bounded/LRU mode, from `Capacity`.
    pub lru_max_entries: Option<u64>,
    /// The duration expression from `TimeToLive`, verbatim.
    pub time_to_live: Option<Vec<Tok>>,
    /// Process-wide storage, from `SharedCache`.
    pub shared_cache: bool,
    /// The container type from `CustomHasher`.
    pub custom_hasher: Option<TypePath>,
    /// The container initializer from `HasherInit`.
    pub custom_hasher_initializer: Option<CallExpr>,
    /// The parameter names from `Ignore`, in the order given.
    pub ignored: Vec<String>,
}

/// The spec-level value of a configuration.
pub ghost struct ConfigG {
    pub lru_max_entries: Option<u64>,
    pub time_to_live: Option<Seq<Tok>>,
    pub shared_cache: bool,
    pub custom_hasher: Option<Seq<String>>,
    pub custom_hasher_initializer: Option<(Seq<String>, String)>,
    pub ignored: Seq<String>,
}

impl View for CacheOptions {
    type V = ConfigG;

    open spec fn view(&self) -> ConfigG {
        ConfigG {
            lru_max_entries: self.lru_max_entries,
            time_to_live: match self.time_to_live {
                Some(e) => Some(e@),
                None => None,
            },
            shared_cache: self.shared_cache,
            custom_hasher: match self.custom_hasher {
                Some(p) => Some(p@),
                None => None,
            },
            custom_hasher_initializer: match self.custom_hasher_initializer {
                Some(c) => Some(c@),
                None => None,
            },
            ignored: self.ignored@,
        }
    }
}

/// The configuration that an empty token sequence denotes: unbounded,
/// thread-local, no time-to-live, nothing ignored.
pub open spec fn default_config_g() -> ConfigG {
    ConfigG {
        lru_max_entries: None,
        time_to_live: None,
        shared_cache: false,
        custom_hasher: None,
        custom_hasher_initializer: None,
        ignored: Seq::empty(),
    }
}

impl Default for CacheOptions {
    /// The default configuration.
    fn default() -> (r: CacheOptions)
        ensures
            r@ == default_config_g(),
    {
        CacheOptions {
            lru_max_entries: None,
            time_to_live: None,
            shared_cache: false,
            custom_hasher: None,
            custom_hasher_initializer: None,
            ignored: Vec::new(),
        }
    }
}

// ---------------------------------------------------------------------------
// The grammar, at the spec level.
// ---------------------------------------------------------------------------

/// A top-level comma: the separator between directives.
pub open spec fn is_comma(t: Tok) -> bool {
    t matches Tok::Sym(c, _) && c == ','
}

/// A colon, with any spacing.
pub open spec fn is_colon(t: Tok) -> bool {
    t matches Tok::Sym(c, _) && c == ':'
}

/// The first colon of a `::` pair: glued to what follows.
pub open spec fn is_joint_colon(t: Tok) -> bool {
    t matches Tok::Sym(c, j) && c == ':' && j
}

/// How many tokens stand before the first top-level comma (all of them, when
/// no comma occurs).
pub open spec fn prefix_len(ts: Seq<Tok>) -> nat
    decreases ts.len(),
{
    if ts.len() == 0 {
        0
    } else if is_comma(ts[0]) {
        0
    } else {
        1 + prefix_len(ts.drop_first())
    }
}

/// A decimal digit.
pub open spec fn is_digit(c: char) -> bool {
    '0' <= c && c <= '9'
}

/// Every character a decimal digit.
pub open spec fn all_digits(s: Seq<char>) -> bool {
    forall|i: int| 0 <= i < s.len() ==> is_digit(#[trigger] s[i])
}

/// The value of a digit string.
pub open spec fn digits_val(s: Seq<char>) -> nat
    decreases s.len(),
{
    if s.len() == 0 {
        0
    } else {
        digits_val(s.drop_last()) * 10 + ((s.last() as int - '0' as int) as nat)
    }
}

/// What a literal's text denotes as an unsigned number: defined exactly for
/// a nonempty all-digit string whose value fits.
pub open spec fn dec_value(s: Seq<char>) -> Option<u64> {
    if s.len() > 0 && all_digits(s) && digits_val(s) <= u64::MAX {
        Some(digits_val(s) as u64)
    } else {
        None
    }
}

/// What a token range denotes as a type path: identifiers joined by `::`.
pub open spec fn path_of(c: Seq<Tok>) -> Option<Seq<String>>
    decreases c.len(),
{
    if c.len() == 1 {
        match c[0] {
            Tok::Id(s) => Some(seq![s]),
            _ => None,
        }
    } else if c.len() >= 4 && is_joint_colon(c[1]) && is_colon(c[2]) {
        match (c[0], path_of(c.skip(3))) {
            (Tok::Id(s), Some(rest)) => Some(seq![s] + rest),
            _ => None,
        }
    } else {
        None
    }
}

/// What one comma-free chunk denotes as a directive, if anything.
pub open spec fn option_of(c: Seq<Tok>) -> Option<OptG> {
    if c.len() == 0 {
        None
    } else {
        match c[0] {
            Tok::Id(s) => if s@ == "SharedCache"@ {
                if c.len() == 1 {
                    Some(OptG::SharedCache)
                } else {
                    None
                }
            } else if s@ == "Capacity"@ {
                if c.len() == 3 && is_colon(c[1]) {
                    match c[2] {
                        Tok::Lit(t) => match dec_value(t@) {
                            Some(n) => if n >= 1 {
                                Some(OptG::LRUMaxEntries(n))
                            } else {
                                None
                            },
                            None => None,
                        },
                        _ => None,
                    }
                } else {
                    None
                }
            } else if s@ == "TimeToLive"@ {
                if c.len() >= 3 && is_colon(c[1]) {
                    Some(OptG::TimeToLive(c.skip(2)))
                } else {
                    None
                }
            } else if s@ == "CustomHasher"@ {
                if c.len() >= 3 && is_colon(c[1]) {
                    match path_of(c.skip(2)) {
                        Some(p) => Some(OptG::CustomHasher(p)),
                        None => None,
                    }
                } else {
                    None
                }
            } else if s@ == "HasherInit"@ {
                if c.len() >= 4 && is_colon(c[1]) {
                    match c.last() {
                        Tok::Tree(d, args) => if d == Delim::Paren {
                            match path_of(c.subrange(2, c.len() - 1)) {
                                Some(p) => Some(OptG::HasherInit(p, args)),
                                None => None,
                            }
                        } else {
                            None
                        },
                        _ => None,
                    }
                } else {
                    None
                }
            } else if s@ == "Ignore"@ {
                if c.len() == 3 && is_colon(c[1]) {
                    match c[2] {
                        Tok::Id(n) => Some(OptG::Ignore(n)),
                        _ => None,
                    }
                } else {
                    None
                }
            } else {
                None
            },
            _ => None,
        }
    }
}

/// A directive name the grammar knows.
pub open spec fn known_keyword(s: Seq<char>) -> bool {
    ||| s == "Capacity"@
    ||| s == "TimeToLive"@
    ||| s == "SharedCache"@
    ||| s == "CustomHasher"@
    ||| s == "HasherInit"@
    ||| s == "Ignore"@
}

/// Which failure an invalid chunk is reported as: a known directive with a
/// bad argument shape, or an unrecognized one.
pub open spec fn classify_chunk(c: Seq<Tok>) -> DiagKind {
    if c.len() > 0 && (c[0] matches Tok::Id(s) && known_keyword(s@)) {
        DiagKind::MalformedArgument
    } else {
        DiagKind::UnrecognizedOption
    }
}

/// The directive list a token sequence denotes, or the diagnostic for its
/// first invalid chunk; `idx` numbers the chunk that `ts` starts with.
pub open spec fn parse_opts_spec(ts: Seq<Tok>, idx: nat) -> Result<Seq<OptG>, Diagnostic>
    decreases ts.len(),
{
    if ts.len() == 0 {
        Ok(Seq::empty())
    } else {
        let n = prefix_len(ts);
        match option_of(ts.take(n as int)) {
            None => Err(
                Diagnostic {
                    kind: classify_chunk(ts.take(n as int)),
                    anchor: Anchor::Option(idx as usize),
                },
            ),
            Some(o) => {
                let rest_from: int = if n >= ts.len() {
                    ts.len() as int
                } else {
                    n as int + 1
                };
                match parse_opts_spec(ts.skip(rest_from), idx + 1) {
                    Ok(os) => Ok(seq![o] + os),
                    Err(d) => Err(d),
                }
            },
        }
    }
}

/// One directive applied to a configuration; a later scalar directive
/// replaces an earlier one, `Ignore` accumulates.
pub open spec fn apply_option(c: ConfigG, o: OptG) -> ConfigG {
    match o {
        OptG::LRUMaxEntries(n) => ConfigG { lru_max_entries: Some(n), ..c },
        OptG::TimeToLive(e) => ConfigG { time_to_live: Some(e), ..c },
        OptG::SharedCache => ConfigG { shared_cache: true, ..c },
        OptG::CustomHasher(p) => ConfigG { custom_hasher: Some(p), ..c },
        OptG::HasherInit(p, a) => ConfigG { custom_hasher_initializer: Some((p, a)), ..c },
        OptG::Ignore(n) => ConfigG { ignored: c.ignored.push(n), ..c },
    }
}

/// A directive list folded over a configuration, left to right.
pub open spec fn fold_options(c: ConfigG, os: Seq<OptG>) -> ConfigG
    decreases os.len(),
{
    if os.len() == 0 {
        c
    } else {
        fold_options(apply_option(c, os[0]), os.drop_first())
    }
}

/// The configuration a token sequence denotes, or the diagnostic for its
/// first invalid chunk. This is the whole contract of the option parser.
pub open spec fn config_spec(ts: Seq<Tok>) -> Result<ConfigG, Diagnostic> {
    match parse_opts_spec(ts, 0) {
        Ok(os) => Ok(fold_options(default_config_g(), os)),
        Err(d) => Err(d),
    }
}

// ---------------------------------------------------------------------------
// The parser.
// ---------------------------------------------------------------------------

fn tok_is_comma(t: &Tok) -> (r: bool)
    ensures
        r == is_comma(*t),
{
    match t {
        Tok::Sym(c, _) => *c == ',',
        _ => false,
    }
}

fn tok_is_colon(t: &Tok) -> (r: bool)
    ensures
        r == is_colon(*t),
{
    match t {
        Tok::Sym(c, _) => *c == ':',
        _ => false,
    }
}

fn tok_is_joint_colon(t: &Tok) -> (r: bool)
    ensures
        r == is_joint_colon(*t),
{
    match t {
        Tok::Sym(c, j) => *c == ':' && *j,
        _ => false,
    }
}

proof fn lemma_prefix_len_char(ts: Seq<Tok>, n: int)
    requires
        0 <= n <= ts.len(),
        forall|i: int| 0 <= i < n ==> !is_comma(#[trigger] ts[i]),
        n == ts.len() || is_comma(ts[n]),
    ensures
        prefix_len(ts) == n,
    decreases ts.len(),
{
    if n == 0 {
    } else {
        assert(!is_comma(ts[0]));
        assert forall|i: int| 0 <= i < n - 1 implies !is_comma(#[trigger] ts.drop_first()[i]) by {
            assert(ts.drop_first()[i] == ts[i + 1]);
        }
        if n < ts.len() {
            assert(ts.drop_first()[n - 1] == ts[n]);
        }
        lemma_prefix_len_char(ts.drop_first(), n - 1);
    }
}

/// Finds the end of the chunk that starts at `from`: the index of the next
/// top-level comma, or the end of the sequence.
fn find_chunk_end(ts: &Vec<Tok>, from: usize) -> (q: usize)
    requires
        from <= ts@.len(),
    ensures
        from <= q <= ts@.len(),
        q - from == prefix_len(ts@.skip(from as int)),
{
    let mut i: usize = from;
    while i < ts.len() && !tok_is_comma(&ts[i])
        invariant
            from <= i <= ts@.len(),
            forall|j: int| from <= j < i ==> !is_comma(#[trigger] ts@[j]),
        decreases ts@.len() - i,
    {
        i += 1;
    }
    proof {
        let suf = ts@.skip(from as int);
        assert forall|k: int| 0 <= k < i - from implies !is_comma(#[trigger] suf[k]) by {
            assert(suf[k] == ts@[from + k]);
        }
        if i < ts@.len() {
            assert(suf[i - from] == ts@[i as int]);
        }
        lemma_prefix_len_char(suf, i - from);
    }
    i
}

proof fn lemma_digits_val_mono(s: Seq<char>, m: int)
    requires
        0 <= m <= s.len(),
    ensures
        digits_val(s.take(m)) <= digits_val(s),
    decreases s.len(),
{
    if m == s.len() {
        assert(s.take(m) =~= s);
    } else {
        lemma_digits_val_mono(s.drop_last(), m);
        assert(s.drop_last().take(m) =~= s.take(m));
    }
}

/// Reads a decimal literal; defined exactly where [`dec_value`] is.
pub fn parse_dec(text: &str) -> (r: Option<u64>)
    ensures
        r == dec_value(text@),
{
    let n = text.unicode_len();
    if n == 0 {
        return None;
    }
    let mut acc: u64 = 0;
    let mut i: usize = 0;
    while i < n
        invariant
            text@.len() == n,
            i <= n,
            forall|j: int| 0 <= j < i ==> is_digit(#[trigger] text@[j]),
            acc == digits_val(text@.take(i as int)),
        decreases n - i,
    {
        let c = text.get_char(i);
        if c < '0' || c > '9' {
            return None;
        }
        let d: u64 = (c as u32 - 48) as u64;
        proof {
            assert(text@.take(i + 1).drop_last() =~= text@.take(i as int));
            assert(text@.take(i + 1).last() == text@[i as int]);
        }
        let next = match acc.checked_mul(10) {
            Some(x) => x.checked_add(d),
            None => None,
        };
        match next {
            None => {
                proof {
                    lemma_digits_val_mono(text@, i + 1);
                }
                return None;
            },
            Some(v) => {
                acc = v;
            },
        }
        i += 1;
    }
    proof {
        assert(text@.take(n as int) =~= text@);
    }
    Some(acc)
}

/// Reads the token range `[from, to)` as a type path.
fn parse_path_range(ts: &Vec<Tok>, from: usize, to: usize) -> (r: Option<TypePath>)
    requires
        from <= to <= ts@.len(),
    ensures
        match r {
            Some(p) => path_of(ts@.subrange(from as int, to as int)) == Some(p@),
            None => path_of(ts@.subrange(from as int, to as int)) is None,
        },
    decreases to - from,
{
    let ghost c = ts@.subrange(from as int, to as int);
    if to - from == 1 {
        match &ts[from] {
            Tok::Id(s) => {
                let mut segs: Vec<String> = Vec::new();
                segs.push(s.clone());
                proof {
                    assert(segs@ =~= seq![*s]);
                }
                Some(TypePath { segments: segs })
            },
            _ => None,
        }
    } else if to - from >= 4 {
        if !tok_is_joint_colon(&ts[from + 1]) || !tok_is_colon(&ts[from + 2]) {
            return None;
        }
        match &ts[from] {
            Tok::Id(s) => {
                proof {
                    assert(c.skip(3) =~= ts@.subrange(from + 3 as int, to as int));
                }
                match parse_path_range(ts, from + 3, to) {
                    Some(mut p) => {
                        p.segments.insert(0, s.clone());
                        proof {
                            assert(p.segments@ =~= seq![*s] + p.segments@.drop_first());
                        }
                        Some(p)
                    },
                    None => None,
                }
            },
            _ => None,
        }
    } else {
        None
    }
}

impl CacheOption {
    /// Parses one comma-free chunk of the configuration as a directive.
    /// Fails with the kind that [`classify_chunk`] assigns to the chunk.
    pub fn parse(chunk: &Vec<Tok>) -> (r: Result<CacheOption, DiagKind>)
        ensures
            match r {
                Ok(o) => option_of(chunk@) == Some(o@),
                Err(k) => option_of(chunk@) is None && k == classify_chunk(chunk@),
            },
    {
        let len = chunk.len();
        if len == 0 {
            return Err(DiagKind::UnrecognizedOption);
        }
        match &chunk[0] {
            Tok::Id(s) => {
                if str_eq(s.as_str(), "SharedCache") {
                    if len == 1 {
                        Ok(CacheOption::SharedCache)
                    } else {
                        Err(DiagKind::MalformedArgument)
                    }
                } else if str_eq(s.as_str(), "Capacity") {
                    if len == 3 && tok_is_colon(&chunk[1]) {
                        match &chunk[2] {
                            Tok::Lit(t) => match parse_dec(t.as_str()) {
                                Some(cap) => if cap >= 1 {
                                    Ok(CacheOption::LRUMaxEntries(cap))
                                } else {
                                    Err(DiagKind::MalformedArgument)
                                },
                                None => Err(DiagKind::MalformedArgument),
                            },
                            _ => Err(DiagKind::MalformedArgument),
                        }
                    } else {
                        Err(DiagKind::MalformedArgument)
                    }
                } else if str_eq(s.as_str(), "TimeToLive") {
                    if len >= 3 && tok_is_colon(&chunk[1]) {
                        let expr = duplicate_toks(chunk, 2, len);
                        proof {
                            assert(chunk@.subrange(2, len as int) =~= chunk@.skip(2));
                        }
                        Ok(CacheOption::TimeToLive(expr))
                    } else {
                        Err(DiagKind::MalformedArgument)
                    }
                } else if str_eq(s.as_str(), "CustomHasher") {
                    if len >= 3 && tok_is_colon(&chunk[1]) {
                        proof {
                            assert(chunk@.subrange(2, len as int) =~= chunk@.skip(2));
                        }
                        match parse_path_range(chunk, 2, len) {
                            Some(p) => Ok(CacheOption::CustomHasher(p)),
                            None => Err(DiagKind::MalformedArgument),
                        }
                    } else {
                        Err(DiagKind::MalformedArgument)
                    }
                } else if str_eq(s.as_str(), "HasherInit") {
                    if len >= 4 && tok_is_colon(&chunk[1]) {
                        match &chunk[len - 1] {
                            Tok::Tree(d, args) => {
                                if *d == Delim::Paren {
                                    match parse_path_range(chunk, 2, len - 1) {
                                        Some(p) => Ok(
                                            CacheOption::HasherInit(
                                                CallExpr { path: p, args: args.clone() },
                                            ),
                                        ),
                                        None => Err(DiagKind::MalformedArgument),
                                    }
                                } else {
                                    Err(DiagKind::MalformedArgument)
                                }
                            },
                            _ => Err(DiagKind::MalformedArgument),
                        }
                    } else {
                        Err(DiagKind::MalformedArgument)
                    }
                } else if str_eq(s.as_str(), "Ignore") {
                    if len == 3 && tok_is_colon(&chunk[1]) {
                        match &chunk[2] {
                            Tok::Id(name) => Ok(CacheOption::Ignore(name.clone())),
                            _ => Err(DiagKind::MalformedArgument),
                        }
                    } else {
                        Err(DiagKind::MalformedArgument)
                    }
                } else {
                    Err(DiagKind::UnrecognizedOption)
                }
            },
            _ => Err(DiagKind::UnrecognizedOption),
        }
    }
}

impl CacheOptions {
    /// Parses a whole configuration token sequence: exactly what
    /// [`config_spec`] says of it.
    pub fn parse(toks: &Vec<Tok>) -> (r: Result<CacheOptions, Diagnostic>)
        ensures
            match r {
                Ok(c) => config_spec(toks@) == Ok::<ConfigG, Diagnostic>(c@),
                Err(d) => config_spec(toks@) == Err::<ConfigG, Diagnostic>(d),
            },
    {
        let mut cfg = CacheOptions::default();
        let mut p: usize = 0;
        let mut ci: usize = 0;
        proof {
            assert(toks@.skip(0) =~= toks@);
        }
        while p < toks.len()
            invariant
                p <= toks@.len(),
                ci <= p,
                config_spec(toks@) == (match parse_opts_spec(toks@.skip(p as int), ci as nat) {
                    Ok(os) => Ok::<ConfigG, Diagnostic>(fold_options(cfg@, os)),
                    Err(d) => Err::<ConfigG, Diagnostic>(d),
                }),
            decreases toks@.len() - p,
        {
            let ghost suf = toks@.skip(p as int);
            let q = find_chunk_end(toks, p);
            let chunk = duplicate_toks(toks, p, q);
            proof {
                assert(chunk@ =~= suf.take(q - p));
            }
            match CacheOption::parse(&chunk) {
                Err(k) => {
                    return Err(Diagnostic { kind: k, anchor: Anchor::Option(ci) });
                },
                Ok(o) => {
                    let ghost cfg0 = cfg@;
                    let ghost og = o@;
                    match o {
                        CacheOption::LRUMaxEntries(x) => {
                            cfg.lru_max_entries = Some(x);
                        },
                        CacheOption::TimeToLive(e) => {
                            cfg.time_to_live = Some(e);
                        },
                        CacheOption::SharedCache => {
                            cfg.shared_cache = true;
                        },
                        CacheOption::CustomHasher(h) => {
                            cfg.custom_hasher = Some(h);
                        },
                        CacheOption::HasherInit(c) => {
                            cfg.custom_hasher_initializer = Some(c);
                        },
                        CacheOption::Ignore(nm) => {
                            cfg.ignored.push(nm);
                        },
                    }
                    let next: usize = if q < toks.len() {
                        q + 1
                    } else {
                        q
                    };
                    proof {
                        let n = prefix_len(suf);
                        assert(option_of(suf.take(n as int)) == Some(og));
                        assert(cfg@ == apply_option(cfg0, og));
                        let rest_from: int = if n >= suf.len() {
                            suf.len() as int
                        } else {
                            n as int + 1
                        };
                        assert(suf.skip(rest_from) =~= toks@.skip(next as int));
                        let rest = parse_opts_spec(toks@.skip(next as int), ci as nat + 1);
                        assert(parse_opts_spec(suf, ci as nat) == (match rest {
                            Ok(os) => Ok::<Seq<OptG>, Diagnostic>(seq![og] + os),
                            Err(d) => Err::<Seq<OptG>, Diagnostic>(d),
                        }));
                        if rest is Ok {
                            let os = rest->Ok_0;
                            assert((seq![og] + os).drop_first() =~= os);
                            assert((seq![og] + os)[0] == og);
                            assert(fold_options(cfg0, seq![og] + os) == fold_options(cfg@, os));
                        }
                    }
                    p = next;
                    ci += 1;
                },
            }
        }
        proof {
            assert(toks@.skip(p as int) =~= Seq::<Tok>::empty());
        }
        Ok(cfg)
    }
}

} // verus!
