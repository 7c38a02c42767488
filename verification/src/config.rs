//! Configuration of the middleware and the path filter that decides which
//! requests are captured at all.

use vstd::prelude::*;
use vstd::utf8::encode_utf8;

verus! {

/// Whether `prefix` is a prefix of `text`, byte for byte.
pub open spec fn is_byte_prefix(prefix: Seq<u8>, text: Seq<u8>) -> bool {
    prefix.len() <= text.len() && text.subrange(0, prefix.len() as int) == prefix
}

/// Whether some string of `prefixes` (in its UTF-8 encoding) is a prefix of `path`.
pub open spec fn matches_any_prefix(prefixes: Seq<String>, path: Seq<u8>) -> bool {
    exists|i: int| 0 <= i < prefixes.len() && is_byte_prefix(encode_utf8(prefixes[i]@), path)
}

/// Whether a filter with these prefix lists captures a request with this path
/// (as UTF-8 bytes): no blocked prefix matches, and either no allowed prefixes
/// are given or one of them matches.
pub open spec fn path_captured(allowed: Seq<String>, blocked: Seq<String>, path: Seq<u8>) -> bool {
    &&& !matches_any_prefix(blocked, path)
    &&& (allowed.len() == 0 || matches_any_prefix(allowed, path))
}

/// The UTF-8 encoding of a concatenation is the concatenation of the encodings.
pub proof fn lemma_encode_utf8_concat(a: Seq<char>, b: Seq<char>)
    ensures
        encode_utf8(a + b) == encode_utf8(a) + encode_utf8(b),
    decreases a.len(),
{
    if a.len() == 0 {
        assert(a + b =~= b);
        assert(encode_utf8(a) + encode_utf8(b) =~= encode_utf8(b));
    } else {
        lemma_encode_utf8_concat(a.drop_first(), b);
        assert((a + b).drop_first() =~= a.drop_first() + b);
        assert((a + b)[0] == a[0]);
        assert(encode_utf8(a + b) =~= encode_utf8(a) + encode_utf8(b));
    }
}

/// A path that starts with a prefix as text starts with it as UTF-8 bytes too,
/// so byte-wise prefix matching agrees with matching on characters.
pub proof fn lemma_text_prefix_is_byte_prefix(prefix: Seq<char>, rest: Seq<char>)
    ensures
        is_byte_prefix(encode_utf8(prefix), encode_utf8(prefix + rest)),
{
    lemma_encode_utf8_concat(prefix, rest);
    let p = encode_utf8(prefix);
    assert((p + encode_utf8(rest)).subrange(0, p.len() as int) =~= p);
}

/// A byte prefix matches exactly when every one of its bytes matches the text
/// at the same position, and the text is at least as long.
pub proof fn lemma_byte_prefix_matches_every_byte(prefix: Seq<u8>, text: Seq<u8>)
    ensures
        is_byte_prefix(prefix, text) <==> (prefix.len() <= text.len() && forall|j: int|
            0 <= j < prefix.len() ==> text[j] == prefix[j]),
{
    if prefix.len() <= text.len() && forall|j: int| 0 <= j < prefix.len() ==> text[j] == prefix[j] {
        assert(text.subrange(0, prefix.len() as int) =~= prefix);
    }
    if is_byte_prefix(prefix, text) {
        assert forall|j: int| 0 <= j < prefix.len() implies text[j] == prefix[j] by {
            assert(text.subrange(0, prefix.len() as int)[j] == text[j]);
        }
    }
}

/// A filter with allowed prefixes captures a path only when one of them
/// matches it in every byte.
pub proof fn lemma_allowed_prefix_needed(filter: PathFilter, path: Seq<u8>)
    requires
        filter.allowed_prefixes@.len() > 0,
        filter.captures(path),
    ensures
        exists|i: int|
            0 <= i < filter.allowed_prefixes@.len() && {
                let p = encode_utf8(#[trigger] filter.allowed_prefixes@[i]@);
                &&& p.len() <= path.len()
                &&& forall|j: int| 0 <= j < p.len() ==> path[j] == p[j]
            },
{
    let i = choose|i: int|
        0 <= i < filter.allowed_prefixes@.len() && is_byte_prefix(
            encode_utf8(filter.allowed_prefixes@[i]@),
            path,
        );
    lemma_byte_prefix_matches_every_byte(encode_utf8(filter.allowed_prefixes@[i]@), path);
}

/// Whether `text` starts with `prefix`, compared byte by byte.
pub fn starts_with_bytes(text: &[u8], prefix: &[u8]) -> (res: bool)
    ensures
        res == is_byte_prefix(prefix@, text@),
        res <==> (prefix@.len() <= text@.len() && forall|j: int|
            0 <= j < prefix@.len() ==> text@[j] == prefix@[j]),
{
    proof {
        lemma_byte_prefix_matches_every_byte(prefix@, text@);
    }
    if prefix.len() > text.len() {
        return false;
    }
    let mut i: usize = 0;
    while i < prefix.len()
        invariant
            prefix@.len() <= text@.len(),
            0 <= i <= prefix@.len(),
            forall|j: int| 0 <= j < i ==> text@[j] == prefix@[j],
        decreases prefix@.len() - i,
    {
        if text[i] != prefix[i] {
            assert(text@.subrange(0, prefix@.len() as int)[i as int] != prefix@[i as int]);
            proof {
                lemma_byte_prefix_matches_every_byte(prefix@, text@);
            }
            return false;
        }
        i = i + 1;
    }
    assert(text@.subrange(0, prefix@.len() as int) =~= prefix@);
    true
}

/// Whether one of `prefixes` is a prefix of `path`.
fn any_prefix_matches(prefixes: &Vec<String>, path: &[u8]) -> (res: bool)
    ensures
        res == matches_any_prefix(prefixes@, path@),
{
    let mut i: usize = 0;
    while i < prefixes.len()
        invariant
            0 <= i <= prefixes@.len(),
            forall|j: int|
                0 <= j < i ==> !is_byte_prefix(#[trigger] encode_utf8(prefixes@[j]@), path@),
        decreases prefixes@.len() - i,
    {
        let prefix_bytes = prefixes[i].as_str().as_bytes();
        if starts_with_bytes(path, prefix_bytes) {
            assert(is_byte_prefix(encode_utf8(prefixes@[i as int]@), path@));
            return true;
        }
        i = i + 1;
    }
    false
}

/// Filter that decides which requests are captured, by the prefix of their
/// URI path. It is applied before any body is captured, so filtered requests
/// cost nothing beyond the prefix comparison.
#[derive(Clone, Debug)]
pub struct PathFilter {
    /// Only capture requests whose URI path starts with one of these prefixes.
    /// If empty, all requests are captured (subject to `blocked_prefixes`).
    pub allowed_prefixes: Vec<String>,
    /// Skip requests whose URI path starts with one of these prefixes.
    /// Takes precedence over `allowed_prefixes`.
    pub blocked_prefixes: Vec<String>,
}

impl PathFilter {
    /// Whether this filter captures a request whose URI path is `path` (as UTF-8 bytes).
    pub open spec fn captures(&self, path: Seq<u8>) -> bool {
        path_captured(self.allowed_prefixes@, self.blocked_prefixes@, path)
    }

    /// Whether a request with this URI path should be captured: `false` when a
    /// blocked prefix matches; otherwise `true` when no allowed prefixes are
    /// given or one of them matches.
    pub fn should_capture(&self, path: &str) -> (capture: bool)
        ensures
            capture == self.captures(encode_utf8(path@)),
    {
        let bytes = path.as_bytes();
        if any_prefix_matches(&self.blocked_prefixes, bytes) {
            return false;
        }
        if self.allowed_prefixes.len() == 0 {
            return true;
        }
        any_prefix_matches(&self.allowed_prefixes, bytes)
    }
}

/// A blocked prefix takes precedence: a path that starts with a blocked
/// prefix is never captured, whatever the allowed prefixes are.
pub proof fn lemma_blocked_prefix_wins(filter: PathFilter, path: Seq<u8>, k: int)
    requires
        0 <= k < filter.blocked_prefixes@.len(),
        is_byte_prefix(encode_utf8(filter.blocked_prefixes@[k]@), path),
    ensures
        !filter.captures(path),
{
}

/// A filter with no prefixes at all captures every path.
pub proof fn lemma_empty_filter_captures_all(filter: PathFilter, path: Seq<u8>)
    requires
        filter.allowed_prefixes@.len() == 0,
        filter.blocked_prefixes@.len() == 0,
    ensures
        filter.captures(path),
{
}

/// Without allowed prefixes, a path is captured exactly when no blocked
/// prefix matches it.
pub proof fn lemma_no_allowed_prefixes(filter: PathFilter, path: Seq<u8>)
    requires
        filter.allowed_prefixes@.len() == 0,
    ensures
        filter.captures(path) <==> !matches_any_prefix(filter.blocked_prefixes@, path),
{
}

/// Blocking one more prefix never lets a path through that was not captured before.
pub proof fn lemma_more_blocking_captures_less(
    allowed: Seq<String>,
    blocked: Seq<String>,
    extra: String,
    path: Seq<u8>,
)
    requires
        path_captured(allowed, blocked.push(extra), path),
    ensures
        path_captured(allowed, blocked, path),
{
    if matches_any_prefix(blocked, path) {
        let i = choose|i: int| 0 <= i < blocked.len() && is_byte_prefix(encode_utf8(blocked[i]@), path);
        assert(blocked.push(extra)[i] == blocked[i]);
    }
}

/// With no blocked prefix matching, a path that starts with an allowed prefix
/// is captured.
pub proof fn lemma_allowed_prefix_captures(filter: PathFilter, path: Seq<u8>, k: int)
    requires
        0 <= k < filter.allowed_prefixes@.len(),
        is_byte_prefix(encode_utf8(filter.allowed_prefixes@[k]@), path),
        !matches_any_prefix(filter.blocked_prefixes@, path),
    ensures
        filter.captures(path),
{
}

/// A request the filter does not capture passes straight through, and every
/// other request is captured with the bodies the configuration asks for.
pub proof fn lemma_plan_follows_filter(config: RequestLoggerConfig, path: Seq<u8>)
    ensures
        config.plan_spec(path) == CapturePlan::Passthrough <==> (config.path_filter matches Some(f)
            && !f.captures(path)),
        config.plan_spec(path) != CapturePlan::Passthrough ==> config.plan_spec(path)
            == (CapturePlan::Capture {
            request_body: config.capture_request_body,
            response_body: config.capture_response_body,
        }),
{
}

/// What the middleware does with one request: pass it straight through
/// without capturing anything, or capture it, with or without its bodies.
#[derive(Clone, Copy, Debug, PartialEq, Eq, Structural)]
pub enum CapturePlan {
    Passthrough,
    Capture { request_body: bool, response_body: bool },
}

/// Configuration of the request logging middleware.
#[derive(Clone, Debug)]
pub struct RequestLoggerConfig {
    /// Whether to capture request bodies.
    pub capture_request_body: bool,
    /// Whether to capture response bodies.
    pub capture_response_body: bool,
    /// Optional path filter; requests it does not capture pass straight through.
    pub path_filter: Option<PathFilter>,
    /// Capacity of the bounded channel between the middleware and the background
    /// processing task. When the channel is full, new items are dropped rather
    /// than applying backpressure to the request path.
    pub channel_capacity: usize,
}

/// The channel capacity of the default configuration.
pub const DEFAULT_CHANNEL_CAPACITY: usize = 4096;

impl Default for RequestLoggerConfig {
    /// Both bodies captured, no path filter, a channel of 4096 items.
    fn default() -> (config: Self)
        ensures
            config.capture_request_body,
            config.capture_response_body,
            config.path_filter is None,
            config.channel_capacity == DEFAULT_CHANNEL_CAPACITY,
    {
        RequestLoggerConfig {
            capture_request_body: true,
            capture_response_body: true,
            path_filter: None,
            channel_capacity: DEFAULT_CHANNEL_CAPACITY,
        }
    }
}

impl RequestLoggerConfig {
    /// The plan this configuration gives a request with URI path `path` (as UTF-8 bytes).
    pub open spec fn plan_spec(&self, path: Seq<u8>) -> CapturePlan {
        match self.path_filter {
            Some(filter) if !filter.captures(path) => CapturePlan::Passthrough,
            _ => CapturePlan::Capture {
                request_body: self.capture_request_body,
                response_body: self.capture_response_body,
            },
        }
    }

    /// Decides what to do with a request whose URI path is `path`: requests
    /// the path filter rejects pass straight through; all others are
    /// captured, with the bodies the configuration asks for.
    pub fn plan_for_path(&self, path: &str) -> (plan: CapturePlan)
        ensures
            plan == self.plan_spec(encode_utf8(path@)),
    {
        match &self.path_filter {
            Some(filter) => {
                if !filter.should_capture(path) {
                    return CapturePlan::Passthrough;
                }
            },
            None => {},
        }
        CapturePlan::Capture {
            request_body: self.capture_request_body,
            response_body: self.capture_response_body,
        }
    }
}

} // verus!
