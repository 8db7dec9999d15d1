//! Storage-URL parsing.
//!
//! A storage URL names an S3 bucket, a GCS bucket, or a local
//! directory, in one of the accepted forms; parsing extracts the
//! backend configuration.  The grammar is recognized by a verified
//! scanner: each form is specified as a predicate over the character
//! sequence, and `parse_url` returns exactly the configuration the
//! first matching form describes.

use vstd::prelude::*;
use vstd::string::StrSliceExecFns;
use vstd::string::StringExecFns;

verus! {

/// An error of the storage layer.
#[derive(Debug)]
pub enum StorageError {
    /// The URL fits none of the accepted forms.
    InvalidUrl,
    /// The URL cannot be turned into a storage path; the payload says
    /// why.
    PathError(String),
    /// The URL does not name an object inside the bucket or directory.
    NoKeyInUrl,
    /// An object-store failure, as reported by the store.
    ObjectStore(String),
    /// Credentials could not be loaded.
    CredentialsError(String),
}

/// S3: bucket plus optional key, with region and endpoint when known.
#[derive(Debug, Clone)]
pub struct S3Config {
    pub endpoint: Option<String>,
    pub region: Option<String>,
    pub bucket: String,
    pub key: Option<String>,
}

/// GCS: bucket plus optional key.
#[derive(Debug, Clone)]
pub struct GCSConfig {
    pub bucket: String,
    pub key: Option<String>,
}

/// Local filesystem: directory plus optional key.
#[derive(Debug, Clone)]
pub struct LocalConfig {
    pub path: String,
    pub key: Option<String>,
}

/// The parsed backend configuration.
#[derive(Debug, Clone)]
pub enum BackendConfig {
    S3(S3Config),
    GCS(GCSConfig),
    Local(LocalConfig),
}

/// The view of an optional string.
pub open spec fn view_opt(s: Option<String>) -> Option<Seq<char>> {
    match s {
        Some(x) => Some(x@),
        None => None,
    }
}

/// Whether two optional strings hold the same characters.
pub open spec fn opt_str_eq(a: Option<String>, b: Option<String>) -> bool {
    view_opt(a) == view_opt(b)
}

/// Compares two optional strings.
pub fn eq_opt_str(a: &Option<String>, b: &Option<String>) -> (r: bool)
    ensures
        r == opt_str_eq(*a, *b),
{
    match (a, b) {
        (None, None) => true,
        (Some(x), Some(y)) => {
            let r = x.eq(y);
            proof {
                if x@ == y@ {
                    assert(view_opt(*a) == view_opt(*b));
                } else {
                    assert(view_opt(*a) != view_opt(*b));
                }
            }
            r
        },
        _ => false,
    }
}

impl PartialEq for S3Config {
    fn eq(&self, other: &S3Config) -> (r: bool) {
        eq_opt_str(&self.endpoint, &other.endpoint) && eq_opt_str(&self.region, &other.region)
            && self.bucket.eq(&other.bucket) && eq_opt_str(&self.key, &other.key)
    }
}

impl vstd::std_specs::cmp::PartialEqSpecImpl for S3Config {
    open spec fn obeys_eq_spec() -> bool {
        true
    }

    open spec fn eq_spec(&self, other: &S3Config) -> bool {
        opt_str_eq(self.endpoint, other.endpoint) && opt_str_eq(self.region, other.region)
            && self.bucket@ == other.bucket@ && opt_str_eq(self.key, other.key)
    }
}

impl PartialEq for GCSConfig {
    fn eq(&self, other: &GCSConfig) -> (r: bool) {
        self.bucket.eq(&other.bucket) && eq_opt_str(&self.key, &other.key)
    }
}

impl vstd::std_specs::cmp::PartialEqSpecImpl for GCSConfig {
    open spec fn obeys_eq_spec() -> bool {
        true
    }

    open spec fn eq_spec(&self, other: &GCSConfig) -> bool {
        self.bucket@ == other.bucket@ && opt_str_eq(self.key, other.key)
    }
}

impl PartialEq for LocalConfig {
    fn eq(&self, other: &LocalConfig) -> (r: bool) {
        self.path.eq(&other.path) && eq_opt_str(&self.key, &other.key)
    }
}

impl vstd::std_specs::cmp::PartialEqSpecImpl for LocalConfig {
    open spec fn obeys_eq_spec() -> bool {
        true
    }

    open spec fn eq_spec(&self, other: &LocalConfig) -> bool {
        self.path@ == other.path@ && opt_str_eq(self.key, other.key)
    }
}

impl PartialEq for BackendConfig {
    fn eq(&self, other: &BackendConfig) -> (r: bool) {
        match (self, other) {
            (BackendConfig::S3(a), BackendConfig::S3(b)) => a.eq(b),
            (BackendConfig::GCS(a), BackendConfig::GCS(b)) => a.eq(b),
            (BackendConfig::Local(a), BackendConfig::Local(b)) => a.eq(b),
            _ => false,
        }
    }
}

impl vstd::std_specs::cmp::PartialEqSpecImpl for BackendConfig {
    open spec fn obeys_eq_spec() -> bool {
        true
    }

    open spec fn eq_spec(&self, other: &BackendConfig) -> bool {
        match (self, other) {
            (BackendConfig::S3(a), BackendConfig::S3(b)) => vstd::std_specs::cmp::PartialEqSpec::eq_spec(a, b),
            (BackendConfig::GCS(a), BackendConfig::GCS(b)) => vstd::std_specs::cmp::PartialEqSpec::eq_spec(a, b),
            (BackendConfig::Local(a), BackendConfig::Local(b)) => vstd::std_specs::cmp::PartialEqSpec::eq_spec(a, b),
            _ => false,
        }
    }
}

/// The character classes of the URL grammar.
#[derive(Clone, Copy)]
pub enum CharClass {
    /// An S3 bucket character: lower-case letters, digits, `-` and `.`.
    Bucket,
    /// A GCS bucket character: `Bucket` plus `_`.
    GcsBucket,
    /// A region character: letters, digits, `_` and `-`.
    Region,
    /// A decimal digit.
    Digit,
    /// An endpoint-host character: anything but `:` and `/`.
    Endpoint,
    /// Anything but `/`.
    NotSlash,
}

/// Membership in a character class.
pub open spec fn spec_class(k: CharClass, c: char) -> bool {
    let u = c as u32;
    match k {
        CharClass::Bucket => (97 <= u && u <= 122) || (48 <= u && u <= 57) || c == '-' || c == '.',
        CharClass::GcsBucket => (97 <= u && u <= 122) || (48 <= u && u <= 57) || c == '-'
            || c == '.' || c == '_',
        CharClass::Region => (97 <= u && u <= 122) || (65 <= u && u <= 90) || (48 <= u && u <= 57)
            || c == '_' || c == '-',
        CharClass::Digit => 48 <= u && u <= 57,
        CharClass::Endpoint => c != ':' && c != '/',
        CharClass::NotSlash => c != '/',
    }
}

/// Tests membership in a character class.
pub fn class_match(k: CharClass, c: char) -> (r: bool)
    ensures
        r == spec_class(k, c),
{
    let u = c as u32;
    match k {
        CharClass::Bucket => (97 <= u && u <= 122) || (48 <= u && u <= 57) || c == '-' || c == '.',
        CharClass::GcsBucket => (97 <= u && u <= 122) || (48 <= u && u <= 57) || c == '-'
            || c == '.' || c == '_',
        CharClass::Region => (97 <= u && u <= 122) || (65 <= u && u <= 90) || (48 <= u && u <= 57)
            || c == '_' || c == '-',
        CharClass::Digit => 48 <= u && u <= 57,
        CharClass::Endpoint => c != ':' && c != '/',
        CharClass::NotSlash => c != '/',
    }
}

/// The length of the run of class-`k` characters starting at `from`.
pub open spec fn spec_run_len(s: Seq<char>, from: int, k: CharClass) -> int
    decreases s.len() - from,
{
    if !(0 <= from < s.len()) {
        0
    } else if !spec_class(k, s[from]) {
        0
    } else {
        1 + spec_run_len(s, from + 1, k)
    }
}

/// A run reaches exactly to the first position whose character leaves
/// the class (or the end).
pub proof fn lemma_run_len_chars(s: Seq<char>, from: int, i: int, k: CharClass)
    requires
        0 <= from <= i <= s.len(),
        forall|j: int| from <= j < i ==> spec_class(k, #[trigger] s[j]),
        i == s.len() || !spec_class(k, s[i]),
    ensures
        spec_run_len(s, from, k) == i - from,
    decreases i - from,
{
    if from == i {
    } else {
        lemma_run_len_chars(s, from + 1, i, k);
    }
}

/// The run stays inside the string.
pub proof fn lemma_run_len_bounds(s: Seq<char>, from: int, k: CharClass)
    requires
        0 <= from <= s.len(),
    ensures
        0 <= spec_run_len(s, from, k) <= s.len() - from,
        forall|j: int|
            from <= j < from + spec_run_len(s, from, k) ==> spec_class(k, #[trigger] s[j]),
    decreases s.len() - from,
{
    if from < s.len() && spec_class(k, s[from]) {
        lemma_run_len_bounds(s, from + 1, k);
    }
}

/// Scans the run of class-`k` characters starting at `from`.
pub fn scan_run(s: &str, from: usize, k: CharClass) -> (n: usize)
    requires
        from <= s@.len(),
    ensures
        n == spec_run_len(s@, from as int, k),
        from + n <= s@.len(),
{
    let len = s.unicode_len();
    let mut i: usize = from;
    #[verifier::loop_isolation(false)]
    while i < len && class_match(k, s.get_char(i))
        invariant
            from <= i <= len,
            len == s@.len(),
            forall|j: int| from <= j < i ==> spec_class(k, #[trigger] s@[j]),
        decreases len - i,
    {
        i = i + 1;
    }
    proof {
        lemma_run_len_chars(s@, from as int, i as int, k);
    }
    i - from
}

/// The literal `lit` occurs in `s` at position `at`.
pub open spec fn spec_lit_at(s: Seq<char>, at: int, lit: Seq<char>) -> bool {
    0 <= at && at + lit.len() <= s.len() && s.subrange(at, at + lit.len()) == lit
}

/// Tests whether the literal occurs at `at`.
pub fn matches_lit_at(s: &str, at: usize, lit: &str) -> (r: bool)
    ensures
        r == spec_lit_at(s@, at as int, lit@),
{
    let len = s.unicode_len();
    let lit_len = lit.unicode_len();
    if at > len || lit_len > len - at {
        proof {
            assert(!spec_lit_at(s@, at as int, lit@));
        }
        return false;
    }
    let mut i: usize = 0;
    #[verifier::loop_isolation(false)]
    while i < lit_len
        invariant
            0 <= i <= lit_len,
            len == s@.len(),
            lit_len == lit@.len(),
            at + lit_len <= len,
            forall|j: int| 0 <= j < i ==> s@[at + j] == lit@[j],
        decreases lit_len - i,
    {
        if s.get_char(at + i) != lit.get_char(i) {
            proof {
                assert(s@.subrange(at as int, at + lit@.len())[i as int] == s@[at + i]);
                assert(s@.subrange(at as int, at + lit@.len()) != lit@);
            }
            return false;
        }
        i = i + 1;
    }
    proof {
        assert(s@.subrange(at as int, at + lit@.len()) =~= lit@);
    }
    true
}

/// Copies the characters `[from, to)` of `s` into an owned string.
pub fn substr(s: &str, from: usize, to: usize) -> (r: String)
    requires
        from <= to <= s@.len(),
    ensures
        r@ == s@.subrange(from as int, to as int),
{
    s.substring_char(from, to).to_owned()
}

/// The last `Some` among the options, if any.
pub open spec fn spec_last_some<I>(s: Seq<Option<I>>) -> Option<I>
    decreases s.len(),
{
    if s.len() == 0 {
        None
    } else if s.last() is Some {
        s.last()
    } else {
        spec_last_some(s.drop_last())
    }
}

/// Returns the last present value among the options, if any.
pub fn last<I>(opts: Vec<Option<I>>) -> (r: Option<I>)
    ensures
        r == spec_last_some(opts@),
{
    let ghost input = opts@;
    let mut opts = opts;
    #[verifier::loop_isolation(false)]
    loop
        invariant
            spec_last_some(input) == spec_last_some(opts@),
        decreases opts@.len(),
    {
        match opts.pop() {
            Some(x) => {
                if x.is_some() {
                    return x;
                }
            },
            None => {
                return None;
            },
        }
    }
}

} // verus!

verus! {

/// The view of an optional-keyed bucket result.
pub open spec fn view_bk(r: Option<(String, Option<String>)>) -> Option<(Seq<char>, Option<Seq<char>>)> {
    match r {
        Some((b, k)) => Some((b@, view_opt(k))),
        None => None,
    }
}

/// The run from `from` ends at the string's end or just before a
/// character outside the class.
pub proof fn lemma_run_len_maximal(s: Seq<char>, from: int, k: CharClass)
    requires
        0 <= from <= s.len(),
    ensures
        from + spec_run_len(s, from, k) == s.len() || !spec_class(
            k,
            s[from + spec_run_len(s, from, k)],
        ),
    decreases s.len() - from,
{
    if from < s.len() && spec_class(k, s[from]) {
        lemma_run_len_maximal(s, from + 1, k);
    }
}

/// If every character of `[from, i)` is in the class, the run from
/// `from` is at least `i - from` long.
pub proof fn lemma_run_len_chars_lower(s: Seq<char>, from: int, i: int, k: CharClass)
    requires
        0 <= from <= i <= s.len(),
        forall|j: int| from <= j < i ==> spec_class(k, #[trigger] s[j]),
    ensures
        spec_run_len(s, from, k) >= i - from,
    decreases i - from,
{
    if from < i {
        assert(spec_class(k, s[from]));
        lemma_run_len_chars_lower(s, from + 1, i, k);
    } else {
        lemma_run_len_bounds(s, from, k);
    }
}

/// `BUCKET[/KEY]` anchored at `p` and reaching the end of `s`: the
/// bucket is the (nonempty) run of class-`k` characters; what follows
/// is nothing, or `/` and a nonempty key.
pub open spec fn spec_bucket_key(s: Seq<char>, p: int, k: CharClass) -> Option<(Seq<char>, Option<Seq<char>>)> {
    let bl = spec_run_len(s, p, k);
    if bl == 0 {
        None
    } else if p + bl == s.len() {
        Some((s.subrange(p, p + bl), None))
    } else if p + bl + 1 < s.len() {
        Some((s.subrange(p, p + bl), Some(s.subrange(p + bl + 1, s.len() as int))))
    } else {
        None
    }
}

/// Parses `BUCKET[/KEY]` at `p`.
pub fn parse_bucket_key(s: &str, p: usize, k: CharClass) -> (r: Option<(String, Option<String>)>)
    requires
        p <= s@.len(),
    ensures
        view_bk(r) == spec_bucket_key(s@, p as int, k),
{
    let len = s.unicode_len();
    let bl = scan_run(s, p, k);
    if bl == 0 {
        None
    } else {
        if p + bl == len {
            Some((substr(s, p, p + bl), None))
        } else if p + bl + 1 < len {
            Some((substr(s, p, p + bl), Some(substr(s, p + bl + 1, len))))
        } else {
            None
        }
    }
}

/// The length of the `s3://` / `s3a://` scheme prefix (either case),
/// when present.
pub open spec fn spec_s3_scheme(s: Seq<char>) -> Option<int> {
    if s.len() >= 5 && (s[0] == 's' || s[0] == 'S') && s[1] == '3' {
        if s[2] == 'a' || s[2] == 'A' {
            if spec_lit_at(s, 3, "://"@) {
                Some(6)
            } else {
                None
            }
        } else {
            if spec_lit_at(s, 2, "://"@) {
                Some(5)
            } else {
                None
            }
        }
    } else {
        None
    }
}

/// `s3://BUCKET[/KEY]` (schemes `s3`, `s3a`, any case).
pub open spec fn spec_match_s3_url(s: Seq<char>) -> Option<(Seq<char>, Option<Seq<char>>)> {
    match spec_s3_scheme(s) {
        Some(p) => spec_bucket_key(s, p, CharClass::Bucket),
        None => None,
    }
}

/// Matches `s3://BUCKET[/KEY]`.
pub fn match_s3_url(s: &str) -> (r: Option<(String, Option<String>)>)
    ensures
        view_bk(r) == spec_match_s3_url(s@),
{
    proof {
        reveal_strlit("://");
    }
    let len = s.unicode_len();
    if len >= 5 && (s.get_char(0) == 's' || s.get_char(0) == 'S') && s.get_char(1) == '3' {
        if s.get_char(2) == 'a' || s.get_char(2) == 'A' {
            if matches_lit_at(s, 3, "://") {
                parse_bucket_key(s, 6, CharClass::Bucket)
            } else {
                None
            }
        } else {
            if matches_lit_at(s, 2, "://") {
                parse_bucket_key(s, 5, CharClass::Bucket)
            } else {
                None
            }
        }
    } else {
        None
    }
}

/// `https://s3.REGION.amazonaws.com/BUCKET[/KEY]`.
pub open spec fn spec_match_s3_path(s: Seq<char>) -> Option<(Seq<char>, Seq<char>, Option<Seq<char>>)> {
    if spec_lit_at(s, 0, "https://s3."@) {
        let rl = spec_run_len(s, 11, CharClass::Region);
        if rl > 0 && spec_lit_at(s, 11 + rl, ".amazonaws.com"@) {
            let q = 11 + rl + 14;
            if q < s.len() && s[q] == '/' {
                match spec_bucket_key(s, q + 1, CharClass::Bucket) {
                    Some((b, key)) => Some((s.subrange(11, 11 + rl), b, key)),
                    None => None,
                }
            } else {
                None
            }
        } else {
            None
        }
    } else {
        None
    }
}

/// Matches `https://s3.REGION.amazonaws.com/BUCKET[/KEY]`.
pub fn match_s3_path(s: &str) -> (r: Option<(String, String, Option<String>)>)
    ensures
        ({
            let v = match r {
                Some((reg, b, key)) => Some((reg@, b@, view_opt(key))),
                None => None,
            };
            v == spec_match_s3_path(s@)
        }),
{
    proof {
        reveal_strlit("https://s3.");
        reveal_strlit(".amazonaws.com");
    }
    let len = s.unicode_len();
    if matches_lit_at(s, 0, "https://s3.") {
        let rl = scan_run(s, 11, CharClass::Region);
        if rl > 0 && matches_lit_at(s, 11 + rl, ".amazonaws.com") {
            let q = 11 + rl + 14;
            if q < len && s.get_char(q) == '/' {
                match parse_bucket_key(s, q + 1, CharClass::Bucket) {
                    Some((b, key)) => Some((substr(s, 11, 11 + rl), b, key)),
                    None => None,
                }
            } else {
                None
            }
        } else {
            None
        }
    } else {
        None
    }
}

/// A valid split of the virtual-hosted host part: the bucket runs from
/// position 8 up to `j`, the literal `.s3.` sits at `j`, and the
/// (dot-free) region fills `[j + 4, re)`, with `.amazonaws.com` at
/// `re`.
pub open spec fn spec_virtual_ok(s: Seq<char>, re: int, j: int) -> bool {
    &&& 8 < j
    &&& j + 4 < re
    &&& spec_lit_at(s, j, ".s3."@)
    &&& forall|m: int| 8 <= m < j ==> spec_class(CharClass::Bucket, #[trigger] s[m])
    &&& forall|m: int| j + 4 <= m < re ==> spec_class(CharClass::Region, #[trigger] s[m])
}

/// The split is unique: a second `.s3.` marker would put a dot inside
/// the first split's dot-free region.
pub proof fn lemma_virtual_split_unique(s: Seq<char>, re: int, j1: int, j2: int)
    requires
        re <= s.len(),
        spec_virtual_ok(s, re, j1),
        spec_virtual_ok(s, re, j2),
    ensures
        j1 == j2,
{
    reveal_strlit(".s3.");
    assert(".s3."@.len() == 4 && ".s3."@[0] == '.' && ".s3."@[3] == '.');
    if j1 < j2 {
        if j2 >= j1 + 4 {
            assert(s.subrange(j2, j2 + 4)[0] == s[j2]);
            assert(s[j2] == '.');
            assert(spec_class(CharClass::Region, s[j2]));
        } else {
            assert(s.subrange(j2, j2 + 4)[3] == s[j2 + 3]);
            assert(s[j2 + 3] == '.');
            assert(spec_class(CharClass::Region, s[j2 + 3]));
        }
    } else if j2 < j1 {
        if j1 >= j2 + 4 {
            assert(s.subrange(j1, j1 + 4)[0] == s[j1]);
            assert(s[j1] == '.');
            assert(spec_class(CharClass::Region, s[j1]));
        } else {
            assert(s.subrange(j1, j1 + 4)[3] == s[j1 + 3]);
            assert(s[j1 + 3] == '.');
            assert(spec_class(CharClass::Region, s[j1 + 3]));
        }
    }
}

/// `https://BUCKET.s3.REGION.amazonaws.com[/KEY]`.
pub open spec fn spec_match_s3_virtual(s: Seq<char>) -> Option<(Seq<char>, Seq<char>, Option<Seq<char>>)> {
    if spec_lit_at(s, 0, "https://"@) {
        let he = 8 + spec_run_len(s, 8, CharClass::NotSlash);
        let re = he - 14;
        if he == s.len() || he + 1 < s.len() {
            let key: Option<Seq<char>> = if he == s.len() {
                None
            } else {
                Some(s.subrange(he + 1, s.len() as int))
            };
            if spec_lit_at(s, re, ".amazonaws.com"@) && (exists|j: int|
                spec_virtual_ok(s, re, j)) {
                let j = choose|j: int| spec_virtual_ok(s, re, j);
                Some((s.subrange(8, j), s.subrange(j + 4, re), key))
            } else {
                None
            }
        } else {
            None
        }
    } else {
        None
    }
}

/// Matches `https://BUCKET.s3.REGION.amazonaws.com[/KEY]`.
pub fn match_s3_virtual(s: &str) -> (r: Option<(String, String, Option<String>)>)
    ensures
        ({
            let v = match r {
                Some((b, reg, key)) => Some((b@, reg@, view_opt(key))),
                None => None,
            };
            v == spec_match_s3_virtual(s@)
        }),
{
    proof {
        reveal_strlit("https://");
        reveal_strlit(".amazonaws.com");
        reveal_strlit(".s3.");
    }
    let len = s.unicode_len();
    if !matches_lit_at(s, 0, "https://") {
        return None;
    }
    let he = 8 + scan_run(s, 8, CharClass::NotSlash);
    if !(he == len || he + 1 < len) {
        return None;
    }
    if he < 28 {
        // too short for a bucket, the marker, a region, and the domain
        proof {
            let re = he as int - 14;
            assert forall|j: int| !spec_virtual_ok(s@, re, j) by {
                if spec_virtual_ok(s@, re, j) {
                    assert(8 < j && j + 4 < re);
                }
            }
        }
        return None;
    }
    let re = he - 14;
    if !matches_lit_at(s, re, ".amazonaws.com") {
        return None;
    }
    // the bucket may contain dots, so find the (unique) split where a
    // `.s3.` marker is followed by a dot-free region
    let bucket_run = scan_run(s, 8, CharClass::Bucket);
    let mut j: usize = 9;
    #[verifier::loop_isolation(false)]
    while j + 4 < re
        invariant
            9 <= j <= re,
            he <= len,
            len == s@.len(),
            re == he - 14,
            bucket_run == spec_run_len(s@, 8, CharClass::Bucket),
            8 + bucket_run <= len,
            forall|j2: int| 9 <= j2 < j ==> !spec_virtual_ok(s@, re as int, j2),
        decreases re - j,
    {
        if j <= 8 + bucket_run && matches_lit_at(s, j, ".s3.") {
            let region_run = scan_run(s, j + 4, CharClass::Region);
            if j + 4 + region_run >= re {
                proof {
                    lemma_run_len_bounds(s@, 8, CharClass::Bucket);
                    lemma_run_len_bounds(s@, j as int + 4, CharClass::Region);
                    assert(spec_virtual_ok(s@, re as int, j as int));
                }
                let key: Option<String> = if he == len {
                    None
                } else {
                    Some(substr(s, he + 1, len))
                };
                let bucket = substr(s, 8, j);
                let region = substr(s, j + 4, re);
                proof {
                    let jc = choose|jj: int| spec_virtual_ok(s@, re as int, jj);
                    lemma_virtual_split_unique(s@, re as int, jc, j as int);
                }
                return Some((bucket, region, key));
            } else {
                proof {
                    if spec_virtual_ok(s@, re as int, j as int) {
                        lemma_run_len_chars_lower(
                            s@,
                            j as int + 4,
                            re as int,
                            CharClass::Region,
                        );
                        assert(false);
                    }
                }
            }
        } else {
            proof {
                if spec_virtual_ok(s@, re as int, j as int) {
                    if j > 8 + bucket_run {
                        lemma_run_len_maximal(s@, 8, CharClass::Bucket);
                        assert(spec_class(CharClass::Bucket, s@[8 + bucket_run]));
                        assert(false);
                    }
                    assert(false);
                }
            }
        }
        j = j + 1;
    }
    proof {
        assert forall|j2: int| !spec_virtual_ok(s@, re as int, j2) by {
            if spec_virtual_ok(s@, re as int, j2) {
                assert(9 <= j2 && j2 + 4 < re);
            }
        }
    }
    None
}

} // verus!

verus! {

/// `s3::PROTO://HOST:PORT/BUCKET[/KEY]` (schemes `s3`, `s3a`, any
/// case; `PROTO` is `http` or `https`): the custom-endpoint form.  The
/// result carries the protocol, the host, the port digits, the bucket
/// and the key.
pub open spec fn spec_match_s3_endpoint(s: Seq<char>) -> Option<(bool, Seq<char>, Seq<char>, Seq<char>, Option<Seq<char>>)> {
    if s.len() >= 2 && (s[0] == 's' || s[0] == 'S') && s[1] == '3' {
        let p0: int = if s.len() > 2 && (s[2] == 'a' || s[2] == 'A') {
            3
        } else {
            2
        };
        if spec_lit_at(s, p0, "::"@) {
            let q = p0 + 2;
            if spec_lit_at(s, q, "https://"@) || spec_lit_at(s, q, "http://"@) {
                let is_https = spec_lit_at(s, q, "https://"@);
                let e0 = q + if is_https {
                    8int
                } else {
                    7int
                };
                let el = spec_run_len(s, e0, CharClass::Endpoint);
                if el > 0 && e0 + el < s.len() && s[e0 + el] == ':' {
                    let d0 = e0 + el + 1;
                    let dl = spec_run_len(s, d0, CharClass::Digit);
                    if dl > 0 && d0 + dl < s.len() && s[d0 + dl] == '/' {
                        match spec_bucket_key(s, d0 + dl + 1, CharClass::Bucket) {
                            Some((b, key)) => Some(
                                (is_https, s.subrange(e0, e0 + el), s.subrange(d0, d0 + dl), b, key),
                            ),
                            None => None,
                        }
                    } else {
                        None
                    }
                } else {
                    None
                }
            } else {
                None
            }
        } else {
            None
        }
    } else {
        None
    }
}

/// Matches the custom-endpoint form.
pub fn match_s3_endpoint(s: &str) -> (r: Option<(bool, String, String, String, Option<String>)>)
    ensures
        ({
            let v = match r {
                Some((h, host, port, b, key)) => Some((h, host@, port@, b@, view_opt(key))),
                None => None,
            };
            v == spec_match_s3_endpoint(s@)
        }),
{
    proof {
        reveal_strlit("::");
        reveal_strlit("https://");
        reveal_strlit("http://");
    }
    let len = s.unicode_len();
    if !(len >= 2 && (s.get_char(0) == 's' || s.get_char(0) == 'S') && s.get_char(1) == '3') {
        return None;
    }
    let p0: usize = if len > 2 && (s.get_char(2) == 'a' || s.get_char(2) == 'A') {
        3
    } else {
        2
    };
    if !matches_lit_at(s, p0, "::") {
        return None;
    }
    let q = p0 + 2;
    let is_https = matches_lit_at(s, q, "https://");
    if !is_https && !matches_lit_at(s, q, "http://") {
        return None;
    }
    let e0 = q + if is_https {
        8
    } else {
        7
    };
    proof {
        if is_https {
            assert(e0 <= s@.len());
        } else {
            assert(e0 <= s@.len());
        }
    }
    let el = scan_run(s, e0, CharClass::Endpoint);
    if !(el > 0 && e0 + el < len && s.get_char(e0 + el) == ':') {
        return None;
    }
    let d0 = e0 + el + 1;
    let dl = scan_run(s, d0, CharClass::Digit);
    if !(dl > 0 && d0 + dl < len && s.get_char(d0 + dl) == '/') {
        return None;
    }
    match parse_bucket_key(s, d0 + dl + 1, CharClass::Bucket) {
        Some((b, key)) => Some((is_https, substr(s, e0, e0 + el), substr(s, d0, d0 + dl), b, key)),
        None => None,
    }
}

/// `gs://BUCKET[/KEY]` (scheme any case).
pub open spec fn spec_match_gcs_url(s: Seq<char>) -> Option<(Seq<char>, Option<Seq<char>>)> {
    if s.len() >= 5 && (s[0] == 'g' || s[0] == 'G') && (s[1] == 's' || s[1] == 'S') && spec_lit_at(
        s,
        2,
        "://"@,
    ) {
        spec_bucket_key(s, 5, CharClass::Bucket)
    } else {
        None
    }
}

/// Matches `gs://BUCKET[/KEY]`.
pub fn match_gcs_url(s: &str) -> (r: Option<(String, Option<String>)>)
    ensures
        view_bk(r) == spec_match_gcs_url(s@),
{
    proof {
        reveal_strlit("://");
    }
    let len = s.unicode_len();
    if len >= 5 && (s.get_char(0) == 'g' || s.get_char(0) == 'G') && (s.get_char(1) == 's'
        || s.get_char(1) == 'S') && matches_lit_at(s, 2, "://") {
        parse_bucket_key(s, 5, CharClass::Bucket)
    } else {
        None
    }
}

/// `https://BUCKET.storage.googleapis.com[/KEY]`.
pub open spec fn spec_match_gcs_virtual(s: Seq<char>) -> Option<(Seq<char>, Option<Seq<char>>)> {
    if spec_lit_at(s, 0, "https://"@) {
        let he = 8 + spec_run_len(s, 8, CharClass::NotSlash);
        let re = he - 23;
        if he == s.len() || he + 1 < s.len() {
            let key: Option<Seq<char>> = if he == s.len() {
                None
            } else {
                Some(s.subrange(he + 1, s.len() as int))
            };
            if re > 8 && spec_lit_at(s, re, ".storage.googleapis.com"@) && (forall|m: int|
                8 <= m < re ==> spec_class(CharClass::GcsBucket, #[trigger] s[m])) {
                Some((s.subrange(8, re), key))
            } else {
                None
            }
        } else {
            None
        }
    } else {
        None
    }
}

/// Matches `https://BUCKET.storage.googleapis.com[/KEY]`.
pub fn match_gcs_virtual(s: &str) -> (r: Option<(String, Option<String>)>)
    ensures
        view_bk(r) == spec_match_gcs_virtual(s@),
{
    proof {
        reveal_strlit("https://");
        reveal_strlit(".storage.googleapis.com");
    }
    let len = s.unicode_len();
    if !matches_lit_at(s, 0, "https://") {
        return None;
    }
    let he = 8 + scan_run(s, 8, CharClass::NotSlash);
    if !(he == len || he + 1 < len) {
        return None;
    }
    if he < 32 {
        return None;
    }
    let re = he - 23;
    if !matches_lit_at(s, re, ".storage.googleapis.com") {
        return None;
    }
    let bucket_run = scan_run(s, 8, CharClass::GcsBucket);
    if 8 + bucket_run < re {
        proof {
            lemma_run_len_maximal(s@, 8, CharClass::GcsBucket);
            if forall|m: int| 8 <= m < re as int ==> spec_class(CharClass::GcsBucket, #[trigger] s@[m]) {
                assert(spec_class(CharClass::GcsBucket, s@[8 + bucket_run]));
                assert(false);
            }
        }
        return None;
    }
    proof {
        lemma_run_len_bounds(s@, 8, CharClass::GcsBucket);
    }
    let key: Option<String> = if he == len {
        None
    } else {
        Some(substr(s, he + 1, len))
    };
    Some((substr(s, 8, re), key))
}

/// `https://storage.googleapis.com/BUCKET[/KEY]`.
pub open spec fn spec_match_gcs_path(s: Seq<char>) -> Option<(Seq<char>, Option<Seq<char>>)> {
    if spec_lit_at(s, 0, "https://storage.googleapis.com/"@) {
        spec_bucket_key(s, 31, CharClass::GcsBucket)
    } else {
        None
    }
}

/// Matches `https://storage.googleapis.com/BUCKET[/KEY]`.
pub fn match_gcs_path(s: &str) -> (r: Option<(String, Option<String>)>)
    ensures
        view_bk(r) == spec_match_gcs_path(s@),
{
    proof {
        reveal_strlit("https://storage.googleapis.com/");
    }
    if matches_lit_at(s, 0, "https://storage.googleapis.com/") {
        parse_bucket_key(s, 31, CharClass::GcsBucket)
    } else {
        None
    }
}

} // verus!

verus! {

/// `s` with trailing slashes removed, never below one character.
pub open spec fn spec_trim_slashes(s: Seq<char>) -> Seq<char>
    decreases s.len(),
{
    if s.len() > 1 && s.last() == '/' {
        spec_trim_slashes(s.drop_last())
    } else {
        s
    }
}

/// The index of the last slash, `-1` when there is none.
pub open spec fn spec_last_slash(s: Seq<char>) -> int
    decreases s.len(),
{
    if s.len() == 0 {
        -1
    } else if s.last() == '/' {
        s.len() - 1
    } else {
        spec_last_slash(s.drop_last())
    }
}

/// If `s[p]` is a slash and nothing after it is, `p` is the last slash.
pub proof fn lemma_last_slash_at(s: Seq<char>, p: int)
    requires
        0 <= p < s.len(),
        s[p] == '/',
        forall|m: int| p < m < s.len() ==> s[m] != '/',
    ensures
        spec_last_slash(s) == p,
    decreases s.len(),
{
    if p == s.len() - 1 {
    } else {
        assert(s.last() != '/');
        lemma_last_slash_at(s.drop_last(), p);
    }
}

/// The local configuration derived from a raw path: the path is rooted
/// with a leading slash; with a key, trailing slashes are dropped, the
/// final component becomes the key, and the remainder (again without
/// trailing slashes, at least the root) is the directory.
pub open spec fn spec_local_config(raw: Seq<char>, with_key: bool) -> (Seq<char>, Option<Seq<char>>) {
    let norm: Seq<char> = if raw.len() > 0 && raw[0] == '/' {
        raw
    } else {
        seq!['/'] + raw
    };
    if !with_key {
        (norm, None)
    } else {
        let t = spec_trim_slashes(norm);
        if t.len() <= 1 {
            (t, None)
        } else {
            let j = spec_last_slash(t);
            let key = t.subrange(j + 1, t.len() as int);
            let path = if j == 0 {
                seq!['/']
            } else {
                spec_trim_slashes(t.subrange(0, j))
            };
            (path, Some(key))
        }
    }
}

/// Trimming keeps the leading character of a rooted path.
pub proof fn lemma_trim_slashes_props(s: Seq<char>)
    requires
        s.len() > 0,
        s[0] == '/',
    ensures
        spec_trim_slashes(s).len() >= 1,
        spec_trim_slashes(s)[0] == '/',
        spec_trim_slashes(s).len() > 1 ==> spec_trim_slashes(s).last() != '/',
    decreases s.len(),
{
    if s.len() > 1 && s.last() == '/' {
        lemma_trim_slashes_props(s.drop_last());
    }
}

/// Builds the local configuration from the raw path characters of a
/// matched file form.
pub fn parse_local(s: &str, raw_from: usize, with_key: bool) -> (r: LocalConfig)
    requires
        raw_from <= s@.len(),
    ensures
        ({
            let (p, k) = spec_local_config(s@.subrange(raw_from as int, s@.len() as int), with_key);
            r.path@ == p && view_opt(r.key) == k
        }),
{
    let ghost raw = s@.subrange(raw_from as int, s@.len() as int);
    let len = s.unicode_len();
    let norm: String = if raw_from < len && s.get_char(raw_from) == '/' {
        substr(s, raw_from, len)
    } else {
        let mut n = String::from_str("/");
        proof {
            reveal_strlit("/");
        }
        let n2 = n.concat(s.substring_char(raw_from, len));
        proof {
            assert(n2@ =~= seq!['/'] + raw);
        }
        n2
    };
    proof {
        assert(norm@ == (if raw.len() > 0 && raw[0] == '/' {
            raw
        } else {
            seq!['/'] + raw
        }));
    }
    if !with_key {
        return LocalConfig { path: norm, key: None };
    }
    let ns = norm.as_str();
    let nlen = ns.unicode_len();
    // drop trailing slashes (never the root)
    let mut end: usize = nlen;
    proof {
        assert(norm@.subrange(0, nlen as int) =~= norm@);
    }
    #[verifier::loop_isolation(false)]
    while end > 1 && ns.get_char(end - 1) == '/'
        invariant
            1 <= end <= nlen,
            nlen == norm@.len(),
            nlen >= 1,
            spec_trim_slashes(norm@) == spec_trim_slashes(norm@.subrange(0, end as int)),
        decreases end,
    {
        proof {
            assert(norm@.subrange(0, end as int).drop_last() =~= norm@.subrange(0, end as int - 1));
        }
        end = end - 1;
    }
    proof {
        assert(spec_trim_slashes(norm@.subrange(0, end as int)) == norm@.subrange(0, end as int));
        assert(spec_trim_slashes(norm@) == norm@.subrange(0, end as int));
    }
    let ghost t = spec_trim_slashes(norm@);
    if end <= 1 {
        let path = substr(ns, 0, end);
        return LocalConfig { path, key: None };
    }
    // find the last slash of the trimmed path
    let mut j: usize = end - 1;
    #[verifier::loop_isolation(false)]
    while j > 0 && ns.get_char(j) != '/'
        invariant
            0 <= j < end,
            nlen == norm@.len(),
            end <= nlen,
            forall|m: int| j < m < end ==> norm@[m] != '/',
        decreases j,
    {
        j = j - 1;
    }
    proof {
        lemma_trim_slashes_props(norm@);
        assert(t[0] == norm@[0]);
        assert(norm@[0] == '/');
        if j == 0 {
            assert(norm@[0] == '/');
        }
        assert(norm@[j as int] == '/');
        assert forall|m: int| j < m < t.len() implies t[m] != '/' by {
            assert(t[m] == norm@[m]);
        }
        assert(t[j as int] == norm@[j as int]);
        lemma_last_slash_at(t, j as int);
    }
    let key = substr(ns, j + 1, end);
    proof {
        assert(key@ =~= t.subrange(j as int + 1, t.len() as int));
    }
    if j == 0 {
        let path = substr(ns, 0, 1);
        proof {
            assert(path@ =~= seq!['/']);
        }
        return LocalConfig { path, key: Some(key) };
    }
    // drop trailing slashes of the directory part as well
    let mut pend: usize = j;
    #[verifier::loop_isolation(false)]
    while pend > 1 && ns.get_char(pend - 1) == '/'
        invariant
            1 <= pend <= j,
            nlen == norm@.len(),
            j < nlen,
            spec_trim_slashes(norm@.subrange(0, j as int)) == spec_trim_slashes(
                norm@.subrange(0, pend as int),
            ),
        decreases pend,
    {
        proof {
            assert(norm@.subrange(0, pend as int).drop_last() =~= norm@.subrange(
                0,
                pend as int - 1,
            ));
        }
        pend = pend - 1;
    }
    proof {
        assert(spec_trim_slashes(norm@.subrange(0, pend as int)) == norm@.subrange(0, pend as int));
        assert(t.subrange(0, j as int) =~= norm@.subrange(0, j as int));
    }
    let path = substr(ns, 0, pend);
    LocalConfig { path, key: Some(key) }
}

} // verus!

verus! {

/// The value of a digit string never goes down as the string grows.
pub proof fn lemma_digits_val_step(s: Seq<char>, i: int)
    requires
        0 <= i < s.len(),
    ensures
        crate::names::spec_digits_val(s.subrange(0, i + 1)) == 10 * crate::names::spec_digits_val(
            s.subrange(0, i),
        ) + crate::names::spec_digit_val(s[i]),
{
    assert(s.subrange(0, i + 1).drop_last() =~= s.subrange(0, i));
    assert(s.subrange(0, i + 1).last() == s[i]);
}

/// A digit string's value is never negative.
pub proof fn lemma_digits_val_nonneg(s: Seq<char>)
    ensures
        crate::names::spec_digits_val(s) >= 0,
    decreases s.len(),
{
    if s.len() > 0 {
        lemma_digits_val_nonneg(s.drop_last());
    }
}

/// Reads the decimal value of `s[from..to)`; `None` when it exceeds
/// the largest port number.
pub fn parse_port(s: &str, from: usize, to: usize) -> (r: Option<u32>)
    requires
        from <= to <= s@.len(),
        forall|m: int| from <= m < to ==> spec_class(CharClass::Digit, #[trigger] s@[m]),
    ensures
        ({
            let v = crate::names::spec_digits_val(s@.subrange(from as int, to as int));
            match r {
                Some(p) => p == v && v <= 65535,
                None => v > 65535,
            }
        }),
{
    let ghost digits = s@.subrange(from as int, to as int);
    let mut v: u32 = 0;
    let mut over = false;
    let mut i: usize = from;
    proof {
        assert(digits.subrange(0, 0) =~= Seq::<char>::empty());
    }
    #[verifier::loop_isolation(false)]
    while i < to
        invariant
            from <= i <= to,
            over ==> crate::names::spec_digits_val(digits.subrange(0, i - from)) > 65535,
            !over ==> v == crate::names::spec_digits_val(digits.subrange(0, i - from)) && v
                <= 65535,
        decreases to - i,
    {
        let c = s.get_char(i);
        proof {
            assert(spec_class(CharClass::Digit, s@[i as int]));
            lemma_digits_val_step(digits, i - from);
            assert(digits[i - from] == s@[i as int]);
            lemma_digits_val_nonneg(digits.subrange(0, i - from));
        }
        let d: u32 = (c as u32) - 48;
        proof {
            assert(d == crate::names::spec_digit_val(s@[i as int]));
        }
        if !over {
            let nv: u32 = v * 10 + d;
            if nv > 65535 {
                over = true;
                v = 0;
            } else {
                v = nv;
            }
        } else {
            proof {
                let prev = crate::names::spec_digits_val(digits.subrange(0, i - from));
                assert(crate::names::spec_digits_val(digits.subrange(0, i - from + 1)) == 10 * prev
                    + crate::names::spec_digit_val(digits[i - from]));
                assert(crate::names::spec_digit_val(digits[i - from]) >= 0);
            }
        }
        i = i + 1;
    }
    proof {
        assert(digits.subrange(0, to - from) =~= digits);
    }
    if over {
        None
    } else {
        Some(v)
    }
}

/// The outcome `parse_url` must produce, over character sequences.
pub ghost enum SpecParse {
    S3 { endpoint: Option<Seq<char>>, region: Option<Seq<char>>, bucket: Seq<char>, key: Option<Seq<char>> },
    GCS { bucket: Seq<char>, key: Option<Seq<char>> },
    Local { path: Seq<char>, key: Option<Seq<char>> },
    /// The endpoint form matched but the port exceeds the largest port
    /// number: rejected with a path error naming the digits.
    BadPort(Seq<char>),
    /// No form matches: rejected as an invalid URL.
    NoMatch,
}

/// The normalized endpoint string of the custom-endpoint form:
/// protocol, host, and the port's value back in decimal.
pub open spec fn spec_endpoint_string(is_https: bool, host: Seq<char>, port: Seq<char>) -> Seq<char> {
    (if is_https {
        "https"@
    } else {
        "http"@
    }) + "://"@ + host + ":"@ + crate::names::spec_dec_digits(crate::names::spec_digits_val(port))
}

/// What each URL parses to: the forms are tried in a fixed order and
/// the first match decides.
pub open spec fn spec_parse_url(s: Seq<char>, with_key: bool) -> SpecParse {
    if spec_match_s3_url(s) is Some {
        let (bucket, key) = spec_match_s3_url(s)->0;
        SpecParse::S3 { endpoint: None, region: None, bucket, key }
    } else if spec_match_s3_path(s) is Some {
        let (region, bucket, key) = spec_match_s3_path(s)->0;
        SpecParse::S3 { endpoint: None, region: Some(region), bucket, key }
    } else if spec_match_s3_virtual(s) is Some {
        let (bucket, region, key) = spec_match_s3_virtual(s)->0;
        SpecParse::S3 { endpoint: None, region: Some(region), bucket, key }
    } else if spec_match_s3_endpoint(s) is Some {
        let (is_https, host, port, bucket, key) = spec_match_s3_endpoint(s)->0;
        if crate::names::spec_digits_val(port) > 65535 {
            SpecParse::BadPort(port)
        } else {
            SpecParse::S3 {
                endpoint: Some(spec_endpoint_string(is_https, host, port)),
                region: None,
                bucket,
                key,
            }
        }
    } else if spec_match_gcs_url(s) is Some {
        let (bucket, key) = spec_match_gcs_url(s)->0;
        SpecParse::GCS { bucket, key }
    } else if spec_match_gcs_virtual(s) is Some {
        let (bucket, key) = spec_match_gcs_virtual(s)->0;
        SpecParse::GCS { bucket, key }
    } else if spec_match_gcs_path(s) is Some {
        let (bucket, key) = spec_match_gcs_path(s)->0;
        SpecParse::GCS { bucket, key }
    } else if spec_lit_at(s, 0, "file://"@) {
        let (path, key) = spec_local_config(s.subrange(7, s.len() as int), with_key);
        SpecParse::Local { path, key }
    } else if spec_lit_at(s, 0, "file:"@) {
        let (path, key) = spec_local_config(s.subrange(5, s.len() as int), with_key);
        SpecParse::Local { path, key }
    } else if s.len() >= 1 && s[0] == '/' {
        let (path, key) = spec_local_config(s.subrange(1, s.len() as int), with_key);
        SpecParse::Local { path, key }
    } else {
        SpecParse::NoMatch
    }
}

impl BackendConfig {
    /// Parses a storage URL into its backend configuration.
    ///
    /// The forms are tried in a fixed order — `s3://BUCKET[/KEY]`,
    /// `https://s3.REGION.amazonaws.com/BUCKET[/KEY]`,
    /// `https://BUCKET.s3.REGION.amazonaws.com[/KEY]`,
    /// `s3::PROTO://HOST:PORT/BUCKET[/KEY]`, the three GCS forms, and
    /// the three local forms — and the first match decides.  With
    /// `with_key`, a local path is split into directory and final
    /// component.  A URL matching no form is rejected as invalid; an
    /// endpoint port above the largest port number is rejected with a
    /// path error.  The environment is not consulted here: callers that
    /// honor it use `parse_url_with_overrides`.
    pub fn parse_url(url: &str, with_key: bool) -> (r: Result<BackendConfig, StorageError>)
        ensures
            ({
                match spec_parse_url(url@, with_key) {
                    SpecParse::S3 { endpoint, region, bucket, key } => r matches Ok(
                        BackendConfig::S3(c),
                    ) && view_opt(c.endpoint) == endpoint && view_opt(c.region) == region
                        && c.bucket@ == bucket && view_opt(c.key) == key,
                    SpecParse::GCS { bucket, key } => r matches Ok(BackendConfig::GCS(c))
                        && c.bucket@ == bucket && view_opt(c.key) == key,
                    SpecParse::Local { path, key } => r matches Ok(BackendConfig::Local(c))
                        && c.path@ == path && view_opt(c.key) == key,
                    SpecParse::BadPort(port) => r matches Err(StorageError::PathError(m)) && m@
                        == "invalid port: "@ + port,
                    SpecParse::NoMatch => r matches Err(StorageError::InvalidUrl),
                }
            }),
    {
        if let Some((bucket, key)) = match_s3_url(url) {
            return Ok(BackendConfig::S3(S3Config { endpoint: None, region: None, bucket, key }));
        }
        if let Some((region, bucket, key)) = match_s3_path(url) {
            return Ok(
                BackendConfig::S3(S3Config { endpoint: None, region: Some(region), bucket, key }),
            );
        }
        if let Some((bucket, region, key)) = match_s3_virtual(url) {
            return Ok(
                BackendConfig::S3(S3Config { endpoint: None, region: Some(region), bucket, key }),
            );
        }
        if let Some((is_https, host, port, bucket, key)) = match_s3_endpoint(url) {
            let ghost pv = spec_match_s3_endpoint(url@)->0;
            let ps = port.as_str();
            let plen = ps.unicode_len();
            proof {
                lemma_run_len_bounds(
                    url@,
                    spec_match_s3_endpoint_d0(url@),
                    CharClass::Digit,
                );
                assert(ps@.subrange(0, plen as int) =~= ps@);
                assert forall|m: int| 0 <= m < plen implies spec_class(
                    CharClass::Digit,
                    #[trigger] ps@[m],
                ) by {
                    lemma_endpoint_port_digits(url@, m);
                }
            }
            let value = parse_port(ps, 0, plen);
            match value {
                None => {
                    let mut msg = String::from_str("invalid port: ");
                    msg.append(ps);
                    return Err(StorageError::PathError(msg));
                },
                Some(v) => {
                    let mut endpoint = if is_https {
                        String::from_str("https")
                    } else {
                        String::from_str("http")
                    };
                    endpoint.append("://");
                    endpoint.append(host.as_str());
                    endpoint.append(":");
                    let digits = crate::names::format_usize(v as usize);
                    endpoint.append(digits.as_str());
                    proof {
                        assert(endpoint@ =~= spec_endpoint_string(is_https, host@, port@));
                    }
                    return Ok(
                        BackendConfig::S3(
                            S3Config { endpoint: Some(endpoint), region: None, bucket, key },
                        ),
                    );
                },
            }
        }
        if let Some((bucket, key)) = match_gcs_url(url) {
            return Ok(BackendConfig::GCS(GCSConfig { bucket, key }));
        }
        if let Some((bucket, key)) = match_gcs_virtual(url) {
            return Ok(BackendConfig::GCS(GCSConfig { bucket, key }));
        }
        if let Some((bucket, key)) = match_gcs_path(url) {
            return Ok(BackendConfig::GCS(GCSConfig { bucket, key }));
        }
        proof {
            reveal_strlit("file://");
            reveal_strlit("file:");
        }
        if matches_lit_at(url, 0, "file://") {
            return Ok(BackendConfig::Local(parse_local(url, 7, with_key)));
        }
        if matches_lit_at(url, 0, "file:") {
            return Ok(BackendConfig::Local(parse_local(url, 5, with_key)));
        }
        let len = url.unicode_len();
        if len >= 1 && url.get_char(0) == '/' {
            return Ok(BackendConfig::Local(parse_local(url, 1, with_key)));
        }
        Err(StorageError::InvalidUrl)
    }
}

/// The position where the endpoint form's port digits start.
pub open spec fn spec_match_s3_endpoint_d0(s: Seq<char>) -> int {
    let p0: int = if s.len() > 2 && (s[2] == 'a' || s[2] == 'A') {
        3
    } else {
        2
    };
    let q = p0 + 2;
    let e0 = q + if spec_lit_at(s, q, "https://"@) {
        8int
    } else {
        7int
    };
    e0 + spec_run_len(s, e0, CharClass::Endpoint) + 1
}

/// Every character of the matched port is a digit.
pub proof fn lemma_endpoint_port_digits(s: Seq<char>, m: int)
    requires
        spec_match_s3_endpoint(s) is Some,
        0 <= m < (spec_match_s3_endpoint(s)->0).2.len(),
    ensures
        spec_class(CharClass::Digit, (spec_match_s3_endpoint(s)->0).2[m]),
{
    let d0 = spec_match_s3_endpoint_d0(s);
    let dl = spec_run_len(s, d0, CharClass::Digit);
    lemma_run_len_bounds(s, d0, CharClass::Digit);
    assert((spec_match_s3_endpoint(s)->0).2 == s.subrange(d0, d0 + dl));
    assert((spec_match_s3_endpoint(s)->0).2[m] == s[d0 + m]);
}

} // verus!

verus! {

/// The value an override chain settles on: the last present value of
/// URL-derived, first environment, second environment wins.
pub open spec fn spec_override(
    url_val: Option<Seq<char>>,
    env1: Option<String>,
    env2: Option<String>,
) -> Option<Seq<char>> {
    if env2 is Some {
        Some(env2->0@)
    } else if env1 is Some {
        Some(env1->0@)
    } else {
        url_val
    }
}

/// Like `parse_url`, but with the environment's say applied to an S3
/// configuration: the first environment pair overrides the URL, the
/// second pair overrides both.
pub fn parse_url_with_overrides(
    url: &str,
    with_key: bool,
    region_env: Option<String>,
    aws_region_env: Option<String>,
    endpoint_env: Option<String>,
    aws_endpoint_env: Option<String>,
) -> (r: Result<BackendConfig, StorageError>)
    ensures
        ({
            match spec_parse_url(url@, with_key) {
                SpecParse::S3 { endpoint, region, bucket, key } => r matches Ok(
                    BackendConfig::S3(c),
                ) && view_opt(c.endpoint) == spec_override(endpoint, endpoint_env, aws_endpoint_env)
                    && view_opt(c.region) == spec_override(region, region_env, aws_region_env)
                    && c.bucket@ == bucket && view_opt(c.key) == key,
                SpecParse::GCS { bucket, key } => r matches Ok(BackendConfig::GCS(c)) && c.bucket@
                    == bucket && view_opt(c.key) == key,
                SpecParse::Local { path, key } => r matches Ok(BackendConfig::Local(c)) && c.path@
                    == path && view_opt(c.key) == key,
                SpecParse::BadPort(port) => r matches Err(StorageError::PathError(m)) && m@
                    == "invalid port: "@ + port,
                SpecParse::NoMatch => r matches Err(StorageError::InvalidUrl),
            }
        }),
{
    let ghost re0 = region_env;
    let ghost are0 = aws_region_env;
    let ghost ee0 = endpoint_env;
    let ghost aee0 = aws_endpoint_env;
    match BackendConfig::parse_url(url, with_key) {
        Ok(BackendConfig::S3(c)) => {
            let ghost cr = c.region;
            let ghost ce = c.endpoint;
            let region_opts: Vec<Option<String>> = vec![c.region, region_env, aws_region_env];
            proof {
                assert(region_opts@ =~= seq![cr, re0, are0]);
                lemma_last_some3(cr, re0, are0);
            }
            let region = last(region_opts);
            let endpoint_opts: Vec<Option<String>> = vec![
                c.endpoint,
                endpoint_env,
                aws_endpoint_env,
            ];
            proof {
                assert(endpoint_opts@ =~= seq![ce, ee0, aee0]);
                lemma_last_some3(ce, ee0, aee0);
            }
            let endpoint = last(endpoint_opts);
            Ok(BackendConfig::S3(S3Config { endpoint, region, bucket: c.bucket, key: c.key }))
        },
        Ok(other) => Ok(other),
        Err(e) => Err(e),
    }
}

/// The last present value of a three-element chain.
pub proof fn lemma_last_some3<I>(a: Option<I>, b: Option<I>, c: Option<I>)
    ensures
        spec_last_some(seq![a, b, c]) == (if c is Some {
            c
        } else if b is Some {
            b
        } else {
            a
        }),
{
    let s = seq![a, b, c];
    assert(s.drop_last() =~= seq![a, b]);
    assert(seq![a, b].drop_last() =~= seq![a]);
    assert(seq![a].drop_last() =~= Seq::<Option<I>>::empty());
    assert(s.last() == c);
    assert(seq![a, b].last() == b);
    assert(seq![a].last() == a);
    assert(spec_last_some(Seq::<Option<I>>::empty()) == None::<I>);
    assert(spec_last_some(seq![a]) == (if a is Some {
        a
    } else {
        None
    }));
    assert(spec_last_some(seq![a, b]) == (if b is Some {
        b
    } else {
        spec_last_some(seq![a])
    }));
    assert(spec_last_some(s) == (if c is Some {
        c
    } else {
        spec_last_some(seq![a, b])
    }));
}

/// The canonical URL of a backend configuration: the address under
/// which what it names can be fetched.
pub open spec fn spec_canonical_url(c: BackendConfig) -> Seq<char> {
    match c {
        BackendConfig::S3(c) => if c.endpoint is Some {
            "s3::"@ + c.endpoint->0@ + "/"@ + c.bucket@
        } else if c.region is Some {
            "https://s3."@ + c.region->0@ + ".amazonaws.com/"@ + c.bucket@
        } else {
            "https://s3.amazonaws.com/"@ + c.bucket@
        },
        BackendConfig::GCS(c) => "https://"@ + c.bucket@ + ".storage.googleapis.com"@,
        BackendConfig::Local(c) => "file://"@ + c.path@,
    }
}

/// Produces the URL under which other systems can read what this
/// configuration writes.
pub fn canonical_url(config: &BackendConfig) -> (r: String)
    ensures
        r@ == spec_canonical_url(*config),
{
    match config {
        BackendConfig::S3(c) => {
            match &c.endpoint {
                Some(endpoint) => {
                    let mut r = String::from_str("s3::");
                    r.append(endpoint.as_str());
                    r.append("/");
                    r.append(c.bucket.as_str());
                    r
                },
                None => {
                    match &c.region {
                        Some(region) => {
                            let mut r = String::from_str("https://s3.");
                            r.append(region.as_str());
                            r.append(".amazonaws.com/");
                            r.append(c.bucket.as_str());
                            r
                        },
                        None => {
                            let mut r = String::from_str("https://s3.amazonaws.com/");
                            r.append(c.bucket.as_str());
                            r
                        },
                    }
                },
            }
        },
        BackendConfig::GCS(c) => {
            let mut r = String::from_str("https://");
            r.append(c.bucket.as_str());
            r.append(".storage.googleapis.com");
            r
        },
        BackendConfig::Local(c) => {
            let mut r = String::from_str("file://");
            r.append(c.path.as_str());
            r
        },
    }
}

} // verus!
