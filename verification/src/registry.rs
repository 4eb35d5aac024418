//! The curation registry's plain data and rules: compatibility and test
//! records, API responses with pagination, the validation of submitted
//! crate metadata, and the testing pipeline's configuration and verdicts.
use vstd::prelude::*;
use crate::text::{concat, decimal, to_decimal};
use vstd::string::StringExecFns;

verus! {

/// How well a crate works on WebAssembly.
#[derive(Debug, Clone, Copy, PartialEq, Eq, Structural)]
pub enum CompatibilityLevel {
    ProductionReady,
    Compatible,
    Partial,
    Incompatible,
    Unknown,
}

/// The outcome of compiling a crate.
#[derive(Debug, Clone)]
pub struct CompilationStatus {
    pub compiles: bool,
    pub warnings: Vec<String>,
    pub errors: Vec<String>,
    pub compilation_time_ms: Option<u64>,
    pub memory_usage_mb: Option<u64>,
}

/// Kinds of tests the registry runs.
#[derive(Debug, Clone, Copy, PartialEq, Eq, Structural)]
pub enum TestType {
    Compilation,
    UnitTests,
    IntegrationTests,
    Performance,
    WasmSpecific,
    GcCompatibility,
    MemoryUsage,
    CrossPlatform,
}

/// Outcomes of a test.
#[derive(Debug, Clone, Copy, PartialEq, Eq, Structural)]
pub enum TestOutcome {
    Passed,
    Failed,
    Timeout,
    Skipped,
    Error,
}

/// Where a test ran.
#[derive(Debug, Clone)]
pub struct TestEnvironment {
    pub rust_version: String,
    pub wasm_target: String,
    pub wasm_runtime: String,
    pub os: String,
    pub arch: String,
    /// Environment variables, by name.
    pub environment_vars: Vec<(String, String)>,
}

/// Review status of a crate.
#[derive(Debug, Clone, PartialEq, Eq)]
pub enum CrateStatus {
    Pending,
    Testing,
    UnderReview,
    Approved,
    /// Rejected, with the reason.
    Rejected(String),
    Deprecated,
    Removed,
}

/// Why a crate was forked.
#[derive(Debug, Clone, Copy, PartialEq, Eq, Structural)]
pub enum ForkReason {
    WasmCompatibility,
    Performance,
    BugFixes,
    Features,
    Security,
}

/// Synchronization state of a fork with its upstream.
#[derive(Debug, Clone, Copy, PartialEq, Eq, Structural)]
pub enum SyncStatus {
    Synced,
    OutOfSync,
    UpstreamUnavailable,
    ManualSyncRequired,
}

/// Synchronization with peer registries.
#[derive(Debug, Clone)]
pub struct SyncConfig {
    pub peer_registries: Vec<String>,
    /// Interval in seconds.
    pub sync_interval: u64,
    pub max_retries: u32,
    pub conflict_resolution: ConflictResolution,
}

/// How conflicting records from peers are resolved.
#[derive(Debug, Clone, Copy, PartialEq, Eq, Structural)]
pub enum ConflictResolution {
    PreferLocal,
    PreferRemote,
    Manual,
    Timestamp,
}

/// A response of the registry's API.
#[derive(Debug, Clone)]
pub struct ApiResponse<T> {
    pub status: ResponseStatus,
    pub data: Option<T>,
    pub error: Option<String>,
    pub pagination: Option<Pagination>,
}

/// Status of an API response.
#[derive(Debug, Clone, Copy, PartialEq, Eq, Structural)]
pub enum ResponseStatus {
    Success,
    Error,
    Partial,
}

/// Position of a page in a listing.
#[derive(Debug, Clone, Copy, PartialEq, Eq, Structural)]
pub struct Pagination {
    pub page: u32,
    pub page_size: u32,
    pub total: u64,
    pub total_pages: u32,
}

impl<T> ApiResponse<T> {
    /// A successful response carrying `data`.
    pub fn success(data: T, pagination: Option<Pagination>) -> (r: ApiResponse<T>)
        ensures
            r.status == ResponseStatus::Success,
            r.data == Some(data),
            r.error is None,
            r.pagination == pagination,
    {
        ApiResponse { status: ResponseStatus::Success, data: Some(data), error: None, pagination }
    }

    /// An error response carrying a message.
    pub fn failure(message: String) -> (r: ApiResponse<T>)
        ensures
            r.status == ResponseStatus::Error,
            r.data is None,
            r.error == Some(message),
            r.pagination is None,
    {
        ApiResponse { status: ResponseStatus::Error, data: None, error: Some(message), pagination: None }
    }
}

// ---------------------------------------------------------------------------
// Listing pages
// ---------------------------------------------------------------------------

/// Number of pages of `page_size` items needed for `total` items: the
/// quotient rounded up, `u32::MAX` when it does not fit or when items
/// cannot fit on empty pages, and 0 for no items on empty pages.
pub open spec fn pages_needed(total: nat, page_size: nat) -> nat {
    if page_size == 0 {
        if total == 0 {
            0
        } else {
            u32::MAX as nat
        }
    } else {
        let q: int = (total + page_size - 1) / (page_size as int);
        if q <= u32::MAX {
            q as nat
        } else {
            u32::MAX as nat
        }
    }
}

/// The first item of a page (pages count from 1).
pub open spec fn page_start(page: nat, page_size: nat) -> int {
    (page - 1) * page_size
}

/// The offset of the first item of `page` (counted from 1) in a listing.
pub fn page_offset(page: u32, page_size: u32) -> (r: u32)
    requires
        page >= 1,
        page_start(page as nat, page_size as nat) <= u32::MAX,
    ensures
        r == page_start(page as nat, page_size as nat),
{
    (page - 1) * page_size
}

/// The pagination of a listing of `total` items.
pub fn pagination_for(page: u32, page_size: u32, total: u64) -> (r: Pagination)
    ensures
        r.page == page,
        r.page_size == page_size,
        r.total == total,
        r.total_pages == pages_needed(total as nat, page_size as nat),
{
    let total_pages: u32 = if page_size == 0 {
        if total == 0 {
            0
        } else {
            u32::MAX
        }
    } else {
        let ps = page_size as u64;
        let d = total / ps;
        let rem = total % ps;
        let q = if rem == 0 {
            d
        } else {
            assert(d < u64::MAX) by (nonlinear_arith)
                requires
                    ps > 0,
                    rem != 0,
                    d == total / ps,
                    rem == total % ps,
                    total <= u64::MAX,
            ;
            d + 1
        };
        proof {
            assert(q == (total + ps - 1) / (ps as int)) by (nonlinear_arith)
                requires
                    ps > 0,
                    q == total / ps + if total % ps == 0 {
                        0int
                    } else {
                        1int
                    },
                    d == total / ps,
                    rem == total % ps,
            ;
        }
        if q <= u32::MAX as u64 {
            q as u32
        } else {
            u32::MAX
        }
    };
    Pagination { page, page_size, total, total_pages }
}

/// The conditions of a crate listing, in order: by status, by
/// compatibility level, by a search term over name, description and
/// keywords.
pub open spec fn filter_clauses(status: bool, compatibility: bool, search: bool) -> Seq<Seq<char>> {
    let a: Seq<Seq<char>> = if status {
        seq!["status = ?"@]
    } else {
        Seq::empty()
    };
    let b: Seq<Seq<char>> = if compatibility {
        seq!["wasm_compatibility LIKE ?"@]
    } else {
        Seq::empty()
    };
    let c: Seq<Seq<char>> = if search {
        seq!["(name LIKE ? OR description LIKE ? OR keywords LIKE ?)"@]
    } else {
        Seq::empty()
    };
    a + b + c
}

/// The clauses joined with ` AND `.
pub open spec fn join_and(cs: Seq<Seq<char>>) -> Seq<char>
    decreases cs.len(),
{
    if cs.len() == 0 {
        Seq::empty()
    } else if cs.len() == 1 {
        cs[0]
    } else {
        join_and(cs.drop_last()) + " AND "@ + cs.last()
    }
}

/// The `WHERE` clause of a listing: empty without conditions.
pub open spec fn where_clause_text(cs: Seq<Seq<char>>) -> Seq<char> {
    if cs.len() == 0 {
        Seq::empty()
    } else {
        "WHERE "@ + join_and(cs)
    }
}

/// The parameters bound to the conditions, in order.
pub open spec fn filter_params(
    status: Option<Seq<char>>,
    compatibility: Option<Seq<char>>,
    search: Option<Seq<char>>,
) -> Seq<Seq<char>> {
    let a: Seq<Seq<char>> = match status {
        Some(s) => seq![s],
        None => Seq::empty(),
    };
    let b: Seq<Seq<char>> = match compatibility {
        Some(c) => seq!["%\"level\":\""@ + c + "\"%"@],
        None => Seq::empty(),
    };
    let c: Seq<Seq<char>> = match search {
        Some(q) => seq!["%"@ + q + "%"@, "%"@ + q + "%"@, "%"@ + q + "%"@],
        None => Seq::empty(),
    };
    a + b + c
}

/// The number of `?` placeholders among the first `k` characters.
pub open spec fn placeholders_upto(s: Seq<char>, k: int) -> nat
    decreases k,
{
    if k <= 0 {
        0
    } else {
        placeholders_upto(s, k - 1) + if s[k - 1] == '?' {
            1nat
        } else {
            0nat
        }
    }
}

/// The number of `?` placeholders in a text.
pub open spec fn placeholders(s: Seq<char>) -> nat {
    placeholders_upto(s, s.len() as int)
}

proof fn lemma_placeholders_upto_prefix(a: Seq<char>, b: Seq<char>, k: int)
    requires
        0 <= k <= a.len(),
    ensures
        placeholders_upto(a + b, k) == placeholders_upto(a, k),
    decreases k,
{
    if k > 0 {
        lemma_placeholders_upto_prefix(a, b, k - 1);
        assert((a + b)[k - 1] == a[k - 1]);
    }
}

proof fn lemma_placeholders_concat_upto(a: Seq<char>, b: Seq<char>, k: int)
    requires
        0 <= k <= b.len(),
    ensures
        placeholders_upto(a + b, a.len() + k) == placeholders(a) + placeholders_upto(b, k),
    decreases k,
{
    if k == 0 {
        lemma_placeholders_upto_prefix(a, b, a.len() as int);
    } else {
        lemma_placeholders_concat_upto(a, b, k - 1);
        assert((a + b)[a.len() + k - 1] == b[k - 1]);
    }
}

proof fn lemma_placeholders_concat(a: Seq<char>, b: Seq<char>)
    ensures
        placeholders(a + b) == placeholders(a) + placeholders(b),
{
    lemma_placeholders_concat_upto(a, b, b.len() as int);
}

/// The sum of a sequence of counts.
pub open spec fn total_of(counts: Seq<nat>) -> nat
    decreases counts.len(),
{
    if counts.len() == 0 {
        0
    } else {
        total_of(counts.drop_last()) + counts.last()
    }
}

proof fn lemma_join_placeholders(cs: Seq<Seq<char>>, counts: Seq<nat>)
    requires
        cs.len() == counts.len(),
        forall|i: int| 0 <= i < cs.len() ==> placeholders(#[trigger] cs[i]) == counts[i],
        placeholders(" AND "@) == 0,
    ensures
        placeholders(join_and(cs)) == total_of(counts),
    decreases cs.len(),
{
    if cs.len() == 0 {
        assert(placeholders(join_and(cs)) == 0);
    } else if cs.len() == 1 {
        assert(counts.drop_last() =~= Seq::<nat>::empty());
        assert(placeholders(cs[0]) == counts[0]);
        assert(total_of(counts) == total_of(counts.drop_last()) + counts.last());
        assert(join_and(cs) == cs[0]);
    } else {
        let n = cs.len() - 1;
        assert(placeholders(cs[n]) == counts[n]);
        assert forall|i: int| 0 <= i < cs.drop_last().len() implies placeholders(
            #[trigger] cs.drop_last()[i],
        ) == counts.drop_last()[i] by {
            assert(cs.drop_last()[i] == cs[i]);
            assert(placeholders(cs[i]) == counts[i]);
        }
        lemma_join_placeholders(cs.drop_last(), counts.drop_last());
        lemma_placeholders_concat(join_and(cs.drop_last()) + " AND "@, cs.last());
        lemma_placeholders_concat(join_and(cs.drop_last()), " AND "@);
        assert(join_and(cs) == join_and(cs.drop_last()) + " AND "@ + cs.last());
        assert(total_of(counts) == total_of(counts.drop_last()) + counts.last());
    }
}

/// The `WHERE` clause of a listing has one placeholder per parameter bound
/// to it, whatever filters are given.
pub proof fn lemma_filter_placeholders_match(
    status: Option<Seq<char>>,
    compatibility: Option<Seq<char>>,
    search: Option<Seq<char>>,
)
    ensures
        placeholders(
            where_clause_text(
                filter_clauses(status is Some, compatibility is Some, search is Some),
            ),
        ) == filter_params(status, compatibility, search).len(),
{
    reveal_strlit("status = ?");
    reveal_strlit("wasm_compatibility LIKE ?");
    reveal_strlit("(name LIKE ? OR description LIKE ? OR keywords LIKE ?)");
    reveal_strlit(" AND ");
    reveal_strlit("WHERE ");
    assert(placeholders("status = ?"@) == 1) by {
        reveal_with_fuel(placeholders_upto, 11);
    }
    assert(placeholders("wasm_compatibility LIKE ?"@) == 1) by {
        reveal_with_fuel(placeholders_upto, 26);
    }
    assert(placeholders("(name LIKE ? OR description LIKE ? OR keywords LIKE ?)"@) == 3) by {
        reveal_with_fuel(placeholders_upto, 56);
    }
    assert(placeholders(" AND "@) == 0) by {
        reveal_with_fuel(placeholders_upto, 6);
    }
    assert(placeholders("WHERE "@) == 0) by {
        reveal_with_fuel(placeholders_upto, 7);
    }
    let cs = filter_clauses(status is Some, compatibility is Some, search is Some);
    let a: Seq<nat> = if status is Some {
        seq![1nat]
    } else {
        Seq::empty()
    };
    let b: Seq<nat> = if compatibility is Some {
        seq![1nat]
    } else {
        Seq::empty()
    };
    let c: Seq<nat> = if search is Some {
        seq![3nat]
    } else {
        Seq::empty()
    };
    let counts = a + b + c;
    assert forall|i: int| 0 <= i < cs.len() implies placeholders(#[trigger] cs[i]) == counts[i] by {}
    lemma_join_placeholders(cs, counts);
    if cs.len() > 0 {
        lemma_placeholders_concat("WHERE "@, join_and(cs));
    }
    assert(total_of(counts) == filter_params(status, compatibility, search).len()) by {
        reveal_with_fuel(total_of, 4);
    }
}

/// An optional string as optional text.
pub open spec fn opt_text(o: Option<String>) -> Option<Seq<char>> {
    match o {
        Some(s) => Some(s@),
        None => None,
    }
}

/// The `WHERE` clause and its parameters for listing crates with the
/// given filters.
pub fn list_filter(status: Option<String>, compatibility: Option<String>, search: Option<String>) -> (r: (
    String,
    Vec<String>,
))
    ensures
        r.0@ == where_clause_text(
            filter_clauses(status is Some, compatibility is Some, search is Some),
        ),
        r.1@.map_values(|p: String| p@) == filter_params(
            opt_text(status),
            opt_text(compatibility),
            opt_text(search),
        ),
{
    let ghost cs = filter_clauses(status is Some, compatibility is Some, search is Some);
    let ghost ps = filter_params(opt_text(status), opt_text(compatibility), opt_text(search));
    let mut clauses: Vec<&'static str> = Vec::new();
    let mut params: Vec<String> = Vec::new();
    let has_status = status.is_some();
    let has_compat = compatibility.is_some();
    let has_search = search.is_some();
    match status {
        Some(s) => {
            clauses.push("status = ?");
            params.push(s);
        },
        None => {},
    }
    match compatibility {
        Some(c) => {
            clauses.push("wasm_compatibility LIKE ?");
            let mut p = concat("%\"level\":\"", c.as_str());
            p.append("\"%");
            params.push(p);
        },
        None => {},
    }
    match search {
        Some(q) => {
            clauses.push("(name LIKE ? OR description LIKE ? OR keywords LIKE ?)");
            let mut p1 = concat("%", q.as_str());
            p1.append("%");
            let mut p2 = concat("%", q.as_str());
            p2.append("%");
            let mut p3 = concat("%", q.as_str());
            p3.append("%");
            params.push(p1);
            params.push(p2);
            params.push(p3);
        },
        None => {},
    }
    assert(clauses@.map_values(|c: &str| c@) =~= cs);
    assert(params@.map_values(|p: String| p@) =~= ps);
    let mut where_clause = String::new();
    if clauses.len() > 0 {
        where_clause = concat("WHERE ", clauses[0]);
        let ghost done = seq![clauses@[0]@];
        assert(clauses@.map_values(|c: &str| c@).subrange(0, 1) =~= done);
        let mut i: usize = 1;
        while i < clauses.len()
            invariant
                1 <= i <= clauses@.len(),
                where_clause@ == "WHERE "@ + join_and(
                    clauses@.map_values(|c: &str| c@).subrange(0, i as int),
                ),
            decreases clauses@.len() - i,
        {
            where_clause.append(" AND ");
            where_clause.append(clauses[i]);
            let ghost cv = clauses@.map_values(|c: &str| c@);
            assert(cv.subrange(0, i + 1).drop_last() =~= cv.subrange(0, i as int));
            assert(where_clause@ =~= "WHERE "@ + join_and(cv.subrange(0, i + 1)));
            i = i + 1;
        }
        assert(clauses@.map_values(|c: &str| c@).subrange(0, clauses@.len() as int) =~= cs);
    } else {
        proof {
            vstd::string::axiom_str_literal_len("");
        }
        assert(where_clause@ =~= where_clause_text(cs));
    }
    (where_clause, params)
}

/// The address of a page of the crate listing, with the optional filters
/// appended as query parameters.
pub open spec fn list_url_text(
    base: Seq<char>,
    page: u32,
    page_size: u32,
    status: Option<Seq<char>>,
    compatibility: Option<Seq<char>>,
    search: Option<Seq<char>>,
) -> Seq<char> {
    let head = base + "/crates?page="@ + decimal(page as nat) + "&page_size="@ + decimal(
        page_size as nat,
    );
    let a = match status {
        Some(s) => "&status="@ + s,
        None => Seq::empty(),
    };
    let b = match compatibility {
        Some(c) => "&compatibility="@ + c,
        None => Seq::empty(),
    };
    let c = match search {
        Some(q) => "&search="@ + q,
        None => Seq::empty(),
    };
    head + a + b + c
}

/// The address of a page of the crate listing.
pub fn list_crates_url(
    registry_url: &str,
    page: u32,
    page_size: u32,
    status: &Option<String>,
    compatibility: &Option<String>,
    search: &Option<String>,
) -> (r: String)
    ensures
        r@ == list_url_text(
            registry_url@,
            page,
            page_size,
            opt_text(*status),
            opt_text(*compatibility),
            opt_text(*search),
        ),
{
    let mut url = concat(registry_url, "/crates?page=");
    let p = to_decimal(page as u64);
    url.append(p.as_str());
    url.append("&page_size=");
    let ps = to_decimal(page_size as u64);
    url.append(ps.as_str());
    let ghost head = url@;
    match status {
        Some(s) => {
            url.append("&status=");
            url.append(s.as_str());
        },
        None => {},
    }
    let ghost after_a = url@;
    match compatibility {
        Some(c) => {
            url.append("&compatibility=");
            url.append(c.as_str());
        },
        None => {},
    }
    let ghost after_b = url@;
    match search {
        Some(q) => {
            url.append("&search=");
            url.append(q.as_str());
        },
        None => {},
    }
    proof {
        let a = match opt_text(*status) {
            Some(s) => "&status="@ + s,
            None => Seq::<char>::empty(),
        };
        let b = match opt_text(*compatibility) {
            Some(c) => "&compatibility="@ + c,
            None => Seq::<char>::empty(),
        };
        let c = match opt_text(*search) {
            Some(q) => "&search="@ + q,
            None => Seq::<char>::empty(),
        };
        assert(after_a =~= head + a);
        assert(after_b =~= head + a + b);
        assert(url@ =~= head + a + b + c);
    }
    url
}

// ---------------------------------------------------------------------------
// Validating submitted metadata
// ---------------------------------------------------------------------------

/// What `char::is_alphanumeric` answers for `c`.
pub uninterp spec fn alphanumeric(c: char) -> bool;

/// Whether `c` is alphabetic or numeric in Unicode (`char::is_alphanumeric`).
/// The answer is named; for ASCII characters it is stated: exactly the
/// letters and digits.
#[verifier::external_body]
fn is_alphanumeric(c: char) -> (r: bool)
    ensures
        r == alphanumeric(c),
        (c as u32) < 128 ==> (r <==> ('a' <= c <= 'z' || 'A' <= c <= 'Z' || '0' <= c <= '9')),
{
    c.is_alphanumeric()
}

/// A character allowed in a version: alphanumeric, `.` or `-`.
pub open spec fn version_char(c: char) -> bool {
    alphanumeric(c) || c == '.' || c == '-'
}

/// The first defect of submitted metadata, checked in order: empty name,
/// empty version, no author, empty license, a version character other than
/// an alphanumeric, `.` or `-`.
pub open spec fn metadata_defect(
    name: Seq<char>,
    version: Seq<char>,
    author_count: nat,
    license: Seq<char>,
) -> Option<Seq<char>> {
    if name.len() == 0 {
        Some("Crate name cannot be empty"@)
    } else if version.len() == 0 {
        Some("Crate version cannot be empty"@)
    } else if author_count == 0 {
        Some("Crate must have at least one author"@)
    } else if license.len() == 0 {
        Some("Crate license cannot be empty"@)
    } else if !(forall|i: int| 0 <= i < version.len() ==> #[trigger] version_char(version[i])) {
        Some("Invalid version format"@)
    } else {
        None
    }
}

fn error_text(s: &str) -> (r: Result<(), String>)
    ensures
        r matches Err(m) && m@ == s@,
{
    Err(s.to_string())
}

/// Validates the fields of submitted crate metadata.
pub fn validate_crate_metadata(name: &str, version: &str, author_count: usize, license: &str) -> (r:
    Result<(), String>)
    ensures
        match metadata_defect(name@, version@, author_count as nat, license@) {
            None => r is Ok,
            Some(m) => r matches Err(x) && x@ == m,
        },
{
    proof {
        reveal_strlit("Crate name cannot be empty");
        reveal_strlit("Crate version cannot be empty");
        reveal_strlit("Crate must have at least one author");
        reveal_strlit("Crate license cannot be empty");
        reveal_strlit("Invalid version format");
    }
    if name.unicode_len() == 0 {
        return error_text("Crate name cannot be empty");
    }
    if version.unicode_len() == 0 {
        return error_text("Crate version cannot be empty");
    }
    if author_count == 0 {
        return error_text("Crate must have at least one author");
    }
    if license.unicode_len() == 0 {
        return error_text("Crate license cannot be empty");
    }
    let n = version.unicode_len();
    let mut i: usize = 0;
    while i < n
        invariant
            0 <= i <= n,
            n == version@.len(),
            name@.len() > 0,
            version@.len() > 0,
            author_count > 0,
            license@.len() > 0,
            forall|k: int| 0 <= k < i ==> #[trigger] version_char(version@[k]),
        decreases n - i,
    {
        let c = version.get_char(i);
        if !(is_alphanumeric(c) || c == '.' || c == '-') {
            assert(!version_char(version@[i as int]));
            proof {
                reveal_strlit("Invalid version format");
            }
            return error_text("Invalid version format");
        }
        i = i + 1;
    }
    Ok(())
}

// ---------------------------------------------------------------------------
// The testing pipeline
// ---------------------------------------------------------------------------

/// Errors of the testing pipeline.
#[derive(Debug)]
pub enum TestingError {
    CompilationFailed(String),
    TestExecutionFailed(String),
    /// An I/O failure, by its message.
    IoError(String),
    ProcessError(String),
    ConfigError(String),
}

/// The message of a testing error.
pub open spec fn testing_error_text(e: TestingError) -> Seq<char> {
    match e {
        TestingError::CompilationFailed(m) => "Compilation failed: "@ + m@,
        TestingError::TestExecutionFailed(m) => "Test execution failed: "@ + m@,
        TestingError::IoError(m) => "IO error: "@ + m@,
        TestingError::ProcessError(m) => "Process error: "@ + m@,
        TestingError::ConfigError(m) => "Configuration error: "@ + m@,
    }
}

impl TestingError {
    /// The error's message.
    pub fn to_message(&self) -> (r: String)
        ensures
            r@ == testing_error_text(*self),
    {
        match self {
            TestingError::CompilationFailed(m) => concat("Compilation failed: ", m.as_str()),
            TestingError::TestExecutionFailed(m) => concat("Test execution failed: ", m.as_str()),
            TestingError::IoError(m) => concat("IO error: ", m.as_str()),
            TestingError::ProcessError(m) => concat("Process error: ", m.as_str()),
            TestingError::ConfigError(m) => concat("Configuration error: ", m.as_str()),
        }
    }
}

/// Configuration of the testing pipeline.
#[derive(Debug, Clone)]
pub struct TestingConfig {
    pub rust_toolchain: String,
    pub wasm_target: String,
    pub wasm_runtime: String,
    /// Compilation timeout in seconds.
    pub compilation_timeout: u64,
    /// Test timeout in seconds.
    pub test_timeout: u64,
    pub temp_dir: String,
    pub environment_vars: Vec<(String, String)>,
}

impl Default for TestingConfig {
    /// The stable toolchain, the `wasm32-unknown-unknown` target under
    /// `wasmtime`, 300 s to compile, 60 s to test, and a temporary directory
    /// under `/tmp`.
    fn default() -> (r: TestingConfig)
        ensures
            r.rust_toolchain@ == "stable"@,
            r.wasm_target@ == "wasm32-unknown-unknown"@,
            r.wasm_runtime@ == "wasmtime"@,
            r.compilation_timeout == 300,
            r.test_timeout == 60,
            r.temp_dir@ == "/tmp/wasm-crates-testing"@,
            r.environment_vars@.len() == 0,
    {
        TestingConfig {
            rust_toolchain: "stable".to_string(),
            wasm_target: "wasm32-unknown-unknown".to_string(),
            wasm_runtime: "wasmtime".to_string(),
            compilation_timeout: 300,
            test_timeout: 60,
            temp_dir: "/tmp/wasm-crates-testing".to_string(),
            environment_vars: Vec::new(),
        }
    }
}

/// The verdict of a compilation test: passed when both the native and the
/// WebAssembly compilation succeeded, with one message per failure.
pub open spec fn compilation_verdict(
    native: Result<(), Seq<char>>,
    wasm: Result<(), Seq<char>>,
) -> (TestOutcome, Seq<Seq<char>>) {
    let e1: Seq<Seq<char>> = match native {
        Ok(_) => Seq::empty(),
        Err(m) => seq!["Native compilation failed: "@ + m],
    };
    let e2: Seq<Seq<char>> = match wasm {
        Ok(_) => Seq::empty(),
        Err(m) => seq!["WASM compilation failed: "@ + m],
    };
    let errors = e1 + e2;
    (if errors.len() == 0 {
        TestOutcome::Passed
    } else {
        TestOutcome::Failed
    }, errors)
}

/// The testing pipeline.
pub struct TestingPipeline {
    config: TestingConfig,
}

impl TestingPipeline {
    /// The configuration.
    pub closed spec fn spec_config(&self) -> TestingConfig {
        self.config
    }

    /// A pipeline with a configuration (its temporary directory is made by
    /// whoever runs the pipeline).
    pub fn new(config: TestingConfig) -> (r: TestingPipeline)
        ensures
            r.spec_config() == config,
    {
        TestingPipeline { config }
    }

    /// The configuration.
    pub fn config(&self) -> (r: &TestingConfig)
        ensures
            *r == self.spec_config(),
    {
        &self.config
    }

    /// The verdict of a compilation test from the messages of the failed
    /// native and WebAssembly compilations.
    pub fn compilation_verdict(&self, native: Result<(), String>, wasm: Result<(), String>) -> (r: (
        TestOutcome,
        Vec<String>,
    ))
        ensures
            ({
                let (o, es) = compilation_verdict(
                    match native {
                        Ok(_) => Ok(()),
                        Err(m) => Err(m@),
                    },
                    match wasm {
                        Ok(_) => Ok(()),
                        Err(m) => Err(m@),
                    },
                );
                r.0 == o && r.1@.map_values(|s: String| s@) == es
            }),
    {
        let mut errors: Vec<String> = Vec::new();
        match &native {
            Ok(_) => {},
            Err(e) => errors.push(concat("Native compilation failed: ", e.as_str())),
        }
        match &wasm {
            Ok(_) => {},
            Err(e) => errors.push(concat("WASM compilation failed: ", e.as_str())),
        }
        let outcome = if errors.len() == 0 {
            TestOutcome::Passed
        } else {
            TestOutcome::Failed
        };
        proof {
            let v = errors@.map_values(|s: String| s@);
            let (o, es) = compilation_verdict(
                match native {
                    Ok(_) => Ok(()),
                    Err(m) => Err(m@),
                },
                match wasm {
                    Ok(_) => Ok(()),
                    Err(m) => Err(m@),
                },
            );
            assert(v =~= es);
        }
        (outcome, errors)
    }

    /// Where the compiled WebAssembly binary of a crate lies: under the
    /// crate's directory, in the target's release directory, named after
    /// the manifest's stem.
    pub fn wasm_binary_path(&self, crate_dir: &str, manifest_stem: &str) -> (r: String)
        ensures
            r@ == crate_dir@ + "/target/"@ + self.spec_config().wasm_target@ + "/release/"@
                + manifest_stem@ + ".wasm"@,
    {
        let mut s = concat(crate_dir, "/target/");
        s.append(self.config.wasm_target.as_str());
        s.append("/release/");
        s.append(manifest_stem);
        s.append(".wasm");
        s
    }

    /// The environment the tests run in: the configured toolchain, target,
    /// runtime and variables, on the given system and architecture.
    pub fn test_environment(&self, os: String, arch: String) -> (r: TestEnvironment)
        ensures
            r.rust_version@ == self.spec_config().rust_toolchain@,
            r.wasm_target@ == self.spec_config().wasm_target@,
            r.wasm_runtime@ == self.spec_config().wasm_runtime@,
            r.os == os,
            r.arch == arch,
            r.environment_vars@.len() == self.spec_config().environment_vars@.len(),
            forall|i: int|
                0 <= i < r.environment_vars@.len() ==> r.environment_vars@[i].0@
                    == self.spec_config().environment_vars@[i].0@ && r.environment_vars@[i].1@
                    == self.spec_config().environment_vars@[i].1@,
    {
        TestEnvironment {
            rust_version: self.config.rust_toolchain.clone(),
            wasm_target: self.config.wasm_target.clone(),
            wasm_runtime: self.config.wasm_runtime.clone(),
            os,
            arch,
            environment_vars: copy_pairs(&self.config.environment_vars),
        }
    }
}

/// A copy of a list of name and value pairs.
fn copy_pairs(v: &Vec<(String, String)>) -> (r: Vec<(String, String)>)
    ensures
        r@.len() == v@.len(),
        forall|i: int| 0 <= i < v@.len() ==> r@[i].0@ == v@[i].0@ && r@[i].1@ == v@[i].1@,
{
    let mut r: Vec<(String, String)> = Vec::new();
    let mut i: usize = 0;
    while i < v.len()
        invariant
            0 <= i <= v@.len(),
            r@.len() == i,
            forall|k: int| 0 <= k < i ==> r@[k].0@ == v@[k].0@ && r@[k].1@ == v@[k].1@,
        decreases v@.len() - i,
    {
        r.push((v[i].0.clone(), v[i].1.clone()));
        i = i + 1;
    }
    r
}

/// The pages of a listing hold all its items and no page is wasted: with
/// a positive page size and a page count that fits, the pages hold at least
/// `total` items, and all but the last page hold fewer than `total`.
pub proof fn lemma_pages_cover(total: nat, page_size: nat)
    requires
        page_size > 0,
        (total + page_size - 1) / (page_size as int) <= u32::MAX,
    ensures
        pages_needed(total, page_size) * page_size >= total,
        total > 0 ==> (pages_needed(total, page_size) - 1) * page_size < total,
{
    let q: int = (total + page_size - 1) / (page_size as int);
    assert(pages_needed(total, page_size) == q);
    assert(q * page_size >= total && (total > 0 ==> (q - 1) * page_size < total)) by (nonlinear_arith)
        requires
            page_size > 0,
            q == (total + page_size - 1) / (page_size as int),
    ;
}

} // verus!
