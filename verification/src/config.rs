//! Rules for server configuration files.
use crate::common::{said_of_ranges, say_of_ranges};
use crate::finding::{Finding, Language, Report, RuleFacts, RuleInfo, Severity};
use crate::pattern::{find_spans, int_spans, regex_found};
use crate::text::{
    after_last, append, begins_with, byte_slice, contains, contains_word, first_pos, has_part,
    has_word, is_byte_range, lemma_after_last, lemma_boundary_after_ascii, lemma_encode_add,
    lemma_encode_slice, lemma_first_pos, line_end_of, line_start, slice_bytes, starts_with,
    to_uppercase, trim_start, trimmed_start, uppercase, views, Text, NEWLINE,
};
use vstd::prelude::*;
use vstd::utf8::*;

verus! {

broadcast use crate::text::group_views;

// ─── Comments ────────────────────────────────────────────────────────────────
/// The byte of a carriage return.
pub const RETURN: u8 = 13;

/// The byte of a space.
pub const SPACE: u8 = 32;

/// The byte offset at which the text of the line that starts at `start` ends, before its
/// line feed and a carriage return before that.
pub open spec fn line_stop(bytes: Seq<u8>, start: int) -> int {
    let end = first_pos(bytes, NEWLINE, start);
    if end < bytes.len() && end > start && bytes[end - 1] == RETURN {
        end - 1
    } else {
        end
    }
}

/// Whether the line that starts at the byte offset `start` is a comment.
pub open spec fn is_comment(src: Text, start: int) -> bool {
    begins_with(
        trimmed_start(byte_slice(src, start, line_stop(encode_utf8(src), start))),
        "#"@,
    )
}

/// Whether the byte `p` belongs to the text of a comment.
pub open spec fn in_comment(src: Text, p: int) -> bool {
    let start = line_start(src, p);
    p < line_stop(encode_utf8(src), start) && is_comment(src, start)
}

/// The bytes of a text with a space in the place of each byte of a comment.
pub open spec fn blanked(src: Text) -> Seq<u8> {
    let bytes = encode_utf8(src);
    Seq::new(
        bytes.len(),
        |p: int|
            if in_comment(src, p) {
                SPACE
            } else {
                bytes[p]
            },
    )
}

/// A text with spaces in the place of its comments.
pub open spec fn stripped(src: Text) -> Text {
    decode_utf8(blanked(src))
}

proof fn lemma_line_start_is(bytes: Seq<u8>, start: int, p: int)
    requires
        0 <= start <= p <= bytes.len(),
        start > 0 ==> bytes[start - 1] == NEWLINE,
        forall|k: int| #![trigger bytes[k]] start <= k < p ==> bytes[k] != NEWLINE,
    ensures
        after_last(bytes, NEWLINE, p) == start,
{
    lemma_after_last(bytes, NEWLINE, p);
    let v = after_last(bytes, NEWLINE, p);
    if v < start {
        assert(bytes[start - 1] == NEWLINE);
    }
    if v > start {
        assert(bytes[v - 1] == NEWLINE);
    }
}

fn push_spaces(out: &mut String, count: usize)
    ensures
        encode_utf8(final(out)@) == encode_utf8(old(out)@) + Seq::new(
            count as nat,
            |k: int| SPACE,
        ),
{
    let mut i: usize = 0;
    assert(encode_utf8(out@) + Seq::new(0, |k: int| SPACE) =~= encode_utf8(out@));
    while i < count
        invariant
            i <= count,
            encode_utf8(out@) == encode_utf8(old(out)@) + Seq::new(i as nat, |k: int| SPACE),
        decreases count - i,
    {
        let ghost before = out@;
        append(out, " ");
        proof {
            reveal_strlit(" ");
            lemma_encode_add(before, " "@);
            assert(is_ascii_chars(" "@));
            is_ascii_chars_encode_utf8(" "@);
            assert(" "@[0] as u8 == SPACE);
            assert(encode_utf8(" "@) =~= seq![SPACE]);
            assert(encode_utf8(out@) =~= encode_utf8(old(out)@) + Seq::new(
                (i + 1) as nat,
                |k: int| SPACE,
            ));
        }
        i = i + 1;
    }
}

/// A text with spaces in the place of its comments: lines whose first character other than
/// white space is `#`. Every other byte stays where it is.
#[verifier::spinoff_prover]
#[verifier::rlimit(80)]
pub fn strip_comments(source: &str) -> (r: String)
    ensures
        r@ == stripped(source@),
        encode_utf8(r@) == blanked(source@),
        encode_utf8(r@).len() == encode_utf8(source@).len(),
{
    let b = source.as_bytes();
    let n: usize = b.len();
    let ghost bytes = encode_utf8(source@);
    let ghost want = blanked(source@);
    let mut out = String::new();
    let mut at: usize = 0;
    proof {
        encode_utf8_valid_utf8(source@);
        is_char_boundary_start_end_of_seq(bytes);
        assert(encode_utf8(out@) =~= want.take(0));
    }
    while at < n
        invariant
            at <= n,
            n == bytes.len(),
            b@ == bytes,
            bytes == encode_utf8(source@),
            want == blanked(source@),
            valid_utf8(bytes),
            is_char_boundary(bytes, n as int),
            is_char_boundary(bytes, at as int),
            at > 0 && at < n ==> bytes[at - 1] == NEWLINE,
            encode_utf8(out@) == want.take(at as int),
        decreases n - at,
    {
        let end: usize = line_end_of(source, at);
        proof {
            lemma_first_pos(bytes, NEWLINE, at as int);
            if end < n {
                lemma_boundary_after_ascii(bytes, end as int);
            }
        }
        let stop: usize = if end < n && end > at && b[end - 1] == RETURN {
            proof {
                lemma_boundary_after_ascii(bytes, end - 1);
            }
            end - 1
        } else {
            end
        };
        let next: usize = if end < n {
            end + 1
        } else {
            n
        };
        let line = slice_bytes(source, at, stop);
        let ghost before = out@;
        let ghost comment = is_comment(source@, at as int);
        proof {
            lemma_encode_slice(source@, at as int, stop as int);
            lemma_encode_slice(source@, stop as int, next as int);
            assert forall|p: int| #![trigger want[p]] at <= p < next implies want[p] == (if comment
                && p < stop {
                SPACE
            } else {
                bytes[p]
            }) by {
                lemma_line_start_is(bytes, at as int, p);
            }
        }
        if starts_with(trim_start(line), "#") {
            push_spaces(&mut out, stop - at);
            assert(encode_utf8(out@) =~= want.take(stop as int));
        } else {
            append(&mut out, line);
            proof {
                lemma_encode_add(before, line@);
                assert(encode_utf8(out@) =~= want.take(stop as int));
            }
        }
        let tail = slice_bytes(source, stop, next);
        let ghost middle = out@;
        append(&mut out, tail);
        proof {
            lemma_encode_add(middle, tail@);
            assert(encode_utf8(out@) =~= want.take(next as int));
        }
        at = next;
    }
    proof {
        assert(want.take(n as int) =~= want);
        encode_utf8_decode_utf8(out@);
    }
    out
}

// ─── Directives ──────────────────────────────────────────────────────────────
/// A test on the text of a directive.
pub trait DirectiveTest {
    spec fn fails(directive: Text) -> bool;

    fn is_failing(directive: &str) -> (r: bool)
        ensures
            r == Self::fails(directive@),
    ;
}

/// Those of the ranges from `from` on whose text fails the test.
pub open spec fn failing<D: DirectiveTest>(cleaned: Text, ranges: Seq<(int, int)>, from: int) -> Seq<
    (int, int),
>
    decreases ranges.len() - from,
{
    if from < 0 || from >= ranges.len() {
        Seq::empty()
    } else {
        let rest = failing::<D>(cleaned, ranges, from + 1);
        if D::fails(byte_slice(cleaned, ranges[from].0, ranges[from].1)) {
            seq![ranges[from]] + rest
        } else {
            rest
        }
    }
}

/// The directives of a text that fail a test.
pub open spec fn failing_directives<D: DirectiveTest>(pattern: Text, cleaned: Text) -> Seq<(int, int)> {
    failing::<D>(cleaned, regex_found(pattern, cleaned), 0)
}

fn find_failing<D: DirectiveTest>(pattern: &str, cleaned: &str) -> (out: Vec<(usize, usize)>)
    ensures
        int_spans(out@) == failing_directives::<D>(pattern@, cleaned@),
{
    let spans = find_spans(pattern, cleaned);
    let ghost all = int_spans(spans@);
    let ghost want = failing::<D>(cleaned@, all, 0);
    let mut out: Vec<(usize, usize)> = Vec::new();
    assert(int_spans(out@) + want =~= want);
    let mut k: usize = 0;
    while k < spans.len()
        invariant
            k <= spans@.len(),
            all == int_spans(spans@),
            forall|j: int|
                #![trigger spans@[j]]
                0 <= j < spans@.len() ==> is_byte_range(
                    cleaned@,
                    spans@[j].0 as int,
                    spans@[j].1 as int,
                ),
            int_spans(out@) + failing::<D>(cleaned@, all, k as int) == want,
        decreases spans.len() - k,
    {
        let s = spans[k];
        assert(all[k as int] == (s.0 as int, s.1 as int));
        if D::is_failing(slice_bytes(cleaned, s.0, s.1)) {
            let ghost before = int_spans(out@);
            out.push(s);
            proof {
                let rest = failing::<D>(cleaned@, all, k + 1);
                assert(int_spans(out@) =~= before.push(all[k as int]));
                assert(int_spans(out@) + rest =~= before + (seq![all[k as int]] + rest));
            }
        }
        k = k + 1;
    }
    assert(int_spans(out@) + Seq::<(int, int)>::empty() =~= int_spans(out@));
    out
}

/// What a rule reports on the directives that fail a test.
pub open spec fn directive_reports<D: DirectiveTest>(
    f: RuleFacts,
    description: Text,
    pattern: Text,
    src: Text,
) -> Seq<Report> {
    said_of_ranges(f, description, src, failing_directives::<D>(pattern, stripped(src)))
}

fn check_directives<D: DirectiveTest>(
    info: &RuleInfo,
    description: &str,
    pattern: &str,
    source: &str,
    cleaned: &str,
    out: &mut Vec<Finding>,
)
    requires
        encode_utf8(source@).len() < usize::MAX,
        cleaned@ == stripped(source@),
    ensures
        views(final(out)@) == views(old(out)@) + directive_reports::<D>(
            info@,
            description@,
            pattern@,
            source@,
        ),
{
    let found = find_failing::<D>(pattern, cleaned);
    let mut more = say_of_ranges(info, description, source, &found);
    out.append(&mut more);
}

/// A directive that does not name TLS 1.3.
pub struct LacksTls13;

impl DirectiveTest for LacksTls13 {
    open spec fn fails(directive: Text) -> bool {
        !has_part(directive, "TLSv1.3"@)
    }

    fn is_failing(directive: &str) -> (r: bool) {
        !contains(directive, "TLSv1.3")
    }
}

/// A directive that names neither TLS 1.3 nor, as a word of its own, all protocols.
pub struct LacksAllProtocols;

impl DirectiveTest for LacksAllProtocols {
    open spec fn fails(directive: Text) -> bool {
        !has_word(uppercase(directive), "ALL"@) && !has_part(directive, "TLSv1.3"@)
    }

    fn is_failing(directive: &str) -> (r: bool) {
        !contains_word(to_uppercase(directive).as_str(), "ALL") && !contains(directive, "TLSv1.3")
    }
}

/// A directive that does not ask for TLS 1.3 at least.
pub struct LacksMinimumTls13;

impl DirectiveTest for LacksMinimumTls13 {
    open spec fn fails(directive: Text) -> bool {
        !has_part(directive, "ssl-min-ver TLSv1.3"@) && !has_part(directive, "min-ver TLSv1.3"@)
    }

    fn is_failing(directive: &str) -> (r: bool) {
        !contains(directive, "ssl-min-ver TLSv1.3") && !contains(directive, "min-ver TLSv1.3")
    }
}

/// A directive that names no post-quantum key exchange.
pub struct LacksPostQuantum;

impl DirectiveTest for LacksPostQuantum {
    open spec fn fails(directive: Text) -> bool {
        !has_part(uppercase(directive), "MLKEM"@) && !has_part(
            uppercase(directive),
            "X25519MLKEM"@,
        )
    }

    fn is_failing(directive: &str) -> (r: bool) {
        let upper = to_uppercase(directive);
        !contains(upper.as_str(), "MLKEM") && !contains(upper.as_str(), "X25519MLKEM")
    }
}

/// Any directive.
pub struct Always;

impl DirectiveTest for Always {
    open spec fn fails(directive: Text) -> bool {
        true
    }

    fn is_failing(_directive: &str) -> (r: bool) {
        true
    }
}

/// The directives that are looked for, as regular expressions.
pub const NGINX_PROTOCOLS: &'static str = r"(?i)ssl_protocols\s+[^;]+;";

pub const NGINX_CIPHERS: &'static str = r"(?i)ssl_ciphers\s+[^;]+;";

pub const APACHE_PROTOCOL: &'static str = r"(?i)SSLProtocol\s+.+";

pub const APACHE_CIPHER: &'static str = r"(?i)SSLCipherSuite\s+.+";

pub const HAPROXY_OPTIONS: &'static str = r"(?i)ssl-default-bind-options\s+.+";

pub const HAPROXY_CIPHERS: &'static str = r"(?i)ssl-default-bind-ciphers\s+.+";

pub const HAPROXY_CIPHERSUITES: &'static str = r"(?i)ssl-default-bind-ciphersuites\s+.+";

pub const DOCKERFILE_INSECURE_ENV: &'static str =
    r#"(?im)^(?:ENV|ARG)\s+.*(?:NODE_TLS_REJECT_UNAUTHORIZED\s*=\s*0|PYTHONHTTPSVERIFY\s*=\s*0|GIT_SSL_NO_VERIFY\s*=\s*(?:true|1)|CURL_CA_BUNDLE\s*=\s*(?:''|""|$)|REQUESTS_CA_BUNDLE\s*=\s*(?:''|""|$)|SSL_CERT_FILE\s*=\s*/dev/null)"#;

pub const DOCKERFILE_RUN_INSECURE: &'static str =
    r#"(?im)^RUN\s+.*(?:NODE_TLS_REJECT_UNAUTHORIZED\s*=\s*0|PYTHONHTTPSVERIFY\s*=\s*0|GIT_SSL_NO_VERIFY\s*=\s*(?:true|1)|curl\s+.*--insecure|curl\s+.*-k[\s|&;]|wget\s+.*--no-check-certificate)"#;

/// Nginx TLS configuration uses quantum-vulnerable protocols or ciphers.
#[derive(Debug, Clone, Copy)]
pub struct NginxPqVulnerableTls;

impl NginxPqVulnerableTls {
    /// What the rule says of itself.
    pub open spec fn facts() -> RuleFacts {
        RuleFacts {
            id: "config/nginx-pq-vulnerable-tls"@,
            severity: Severity::Medium,
            cwe: Some("CWE-327"@),
            description: "Nginx TLS configuration uses quantum-vulnerable protocols or ciphers"@,
            language: Language::NginxConf,
            cnsa2_deadline: Some("2033"@),
        }
    }

    /// What the rule says of itself.
    pub fn info(&self) -> (r: RuleInfo)
        ensures
            r@ == Self::facts(),
    {
        RuleInfo {
            id: "config/nginx-pq-vulnerable-tls",
            severity: Severity::Medium,
            cwe: Some("CWE-327"),
            description: "Nginx TLS configuration uses quantum-vulnerable protocols or ciphers",
            language: Language::NginxConf,
            cnsa2_deadline: Some("2033"),
        }
    }

    /// What the rule reports in a file.
    pub open spec fn reports(src: Text) -> Seq<Report> {
        directive_reports::<LacksTls13>(
            Self::facts(),
            "ssl_protocols lacks TLSv1.3 — required for post-quantum key exchange (X25519MLKEM768)"@,
            NGINX_PROTOCOLS@,
            src,
        ) + directive_reports::<LacksPostQuantum>(
            Self::facts(),
            "ssl_ciphers uses only classical key exchange — consider enabling PQ-safe cipher suites via oqs-provider"@,
            NGINX_CIPHERS@,
            src,
        )
    }

    /// The findings of the rule in a file.
    pub fn check(&self, source: &str) -> (out: Vec<Finding>)
        requires
            encode_utf8(source@).len() < usize::MAX,
        ensures
            views(out@) == Self::reports(source@),
    {
        let info = self.info();
        let cleaned = strip_comments(source);
        let mut out: Vec<Finding> = Vec::new();
        check_directives::<LacksTls13>(
            &info,
            "ssl_protocols lacks TLSv1.3 — required for post-quantum key exchange (X25519MLKEM768)",
            NGINX_PROTOCOLS,
            source,
            cleaned.as_str(),
            &mut out,
        );
        check_directives::<LacksPostQuantum>(
            &info,
            "ssl_ciphers uses only classical key exchange — consider enabling PQ-safe cipher suites via oqs-provider",
            NGINX_CIPHERS,
            source,
            cleaned.as_str(),
            &mut out,
        );
        assert(views(out@) =~= Self::reports(source@));
        out
    }
}

/// Apache TLS configuration uses quantum-vulnerable protocols or ciphers.
#[derive(Debug, Clone, Copy)]
pub struct ApachePqVulnerableTls;

impl ApachePqVulnerableTls {
    /// What the rule says of itself.
    pub open spec fn facts() -> RuleFacts {
        RuleFacts {
            id: "config/apache-pq-vulnerable-tls"@,
            severity: Severity::Medium,
            cwe: Some("CWE-327"@),
            description: "Apache TLS configuration uses quantum-vulnerable protocols or ciphers"@,
            language: Language::ApacheConf,
            cnsa2_deadline: Some("2033"@),
        }
    }

    /// What the rule says of itself.
    pub fn info(&self) -> (r: RuleInfo)
        ensures
            r@ == Self::facts(),
    {
        RuleInfo {
            id: "config/apache-pq-vulnerable-tls",
            severity: Severity::Medium,
            cwe: Some("CWE-327"),
            description: "Apache TLS configuration uses quantum-vulnerable protocols or ciphers",
            language: Language::ApacheConf,
            cnsa2_deadline: Some("2033"),
        }
    }

    /// What the rule reports in a file.
    pub open spec fn reports(src: Text) -> Seq<Report> {
        directive_reports::<LacksAllProtocols>(
            Self::facts(),
            "SSLProtocol lacks TLSv1.3 — required for post-quantum key exchange"@,
            APACHE_PROTOCOL@,
            src,
        ) + directive_reports::<LacksPostQuantum>(
            Self::facts(),
            "SSLCipherSuite uses only classical key exchange — consider enabling PQ-safe cipher suites"@,
            APACHE_CIPHER@,
            src,
        )
    }

    /// The findings of the rule in a file.
    pub fn check(&self, source: &str) -> (out: Vec<Finding>)
        requires
            encode_utf8(source@).len() < usize::MAX,
        ensures
            views(out@) == Self::reports(source@),
    {
        let info = self.info();
        let cleaned = strip_comments(source);
        let mut out: Vec<Finding> = Vec::new();
        check_directives::<LacksAllProtocols>(
            &info,
            "SSLProtocol lacks TLSv1.3 — required for post-quantum key exchange",
            APACHE_PROTOCOL,
            source,
            cleaned.as_str(),
            &mut out,
        );
        check_directives::<LacksPostQuantum>(
            &info,
            "SSLCipherSuite uses only classical key exchange — consider enabling PQ-safe cipher suites",
            APACHE_CIPHER,
            source,
            cleaned.as_str(),
            &mut out,
        );
        assert(views(out@) =~= Self::reports(source@));
        out
    }
}

/// HAProxy TLS configuration uses quantum-vulnerable protocols or ciphers.
#[derive(Debug, Clone, Copy)]
pub struct HAProxyPqVulnerableTls;

impl HAProxyPqVulnerableTls {
    /// What the rule says of itself.
    pub open spec fn facts() -> RuleFacts {
        RuleFacts {
            id: "config/haproxy-pq-vulnerable-tls"@,
            severity: Severity::Medium,
            cwe: Some("CWE-327"@),
            description: "HAProxy TLS configuration uses quantum-vulnerable protocols or ciphers"@,
            language: Language::HAProxyConf,
            cnsa2_deadline: Some("2033"@),
        }
    }

    /// What the rule says of itself.
    pub fn info(&self) -> (r: RuleInfo)
        ensures
            r@ == Self::facts(),
    {
        RuleInfo {
            id: "config/haproxy-pq-vulnerable-tls",
            severity: Severity::Medium,
            cwe: Some("CWE-327"),
            description: "HAProxy TLS configuration uses quantum-vulnerable protocols or ciphers",
            language: Language::HAProxyConf,
            cnsa2_deadline: Some("2033"),
        }
    }

    /// What the rule reports in a file.
    pub open spec fn reports(src: Text) -> Seq<Report> {
        directive_reports::<LacksMinimumTls13>(
            Self::facts(),
            "ssl-default-bind-options does not enforce TLSv1.3 minimum — required for post-quantum key exchange"@,
            HAPROXY_OPTIONS@,
            src,
        ) + directive_reports::<LacksPostQuantum>(
            Self::facts(),
            "ssl-default-bind-ciphers uses only classical key exchange — consider enabling PQ-safe cipher suites"@,
            HAPROXY_CIPHERS@,
            src,
        ) + directive_reports::<LacksPostQuantum>(
            Self::facts(),
            "ssl-default-bind-ciphersuites uses only classical key exchange — consider enabling PQ-safe cipher suites"@,
            HAPROXY_CIPHERSUITES@,
            src,
        )
    }

    /// The findings of the rule in a file.
    pub fn check(&self, source: &str) -> (out: Vec<Finding>)
        requires
            encode_utf8(source@).len() < usize::MAX,
        ensures
            views(out@) == Self::reports(source@),
    {
        let info = self.info();
        let cleaned = strip_comments(source);
        let mut out: Vec<Finding> = Vec::new();
        check_directives::<LacksMinimumTls13>(
            &info,
            "ssl-default-bind-options does not enforce TLSv1.3 minimum — required for post-quantum key exchange",
            HAPROXY_OPTIONS,
            source,
            cleaned.as_str(),
            &mut out,
        );
        check_directives::<LacksPostQuantum>(
            &info,
            "ssl-default-bind-ciphers uses only classical key exchange — consider enabling PQ-safe cipher suites",
            HAPROXY_CIPHERS,
            source,
            cleaned.as_str(),
            &mut out,
        );
        check_directives::<LacksPostQuantum>(
            &info,
            "ssl-default-bind-ciphersuites uses only classical key exchange — consider enabling PQ-safe cipher suites",
            HAPROXY_CIPHERSUITES,
            source,
            cleaned.as_str(),
            &mut out,
        );
        assert(views(out@) =~= Self::reports(source@));
        out
    }
}

/// Nginx TLS configuration negotiates a post-quantum / hybrid key exchange (X25519MLKEM768).
#[derive(Debug, Clone, Copy)]
pub struct NginxPqReadyTls;

impl NginxPqReadyTls {
    /// What the rule says of itself.
    pub open spec fn facts() -> RuleFacts {
        RuleFacts {
            id: "config/nginx-pq-ready-tls"@,
            severity: Severity::Low,
            cwe: None,
            description: "Nginx TLS configuration negotiates a post-quantum / hybrid key exchange (X25519MLKEM768)"@,
            language: Language::NginxConf,
            cnsa2_deadline: None,
        }
    }

    /// What the rule says of itself.
    pub fn info(&self) -> (r: RuleInfo)
        ensures
            r@ == Self::facts(),
    {
        RuleInfo {
            id: "config/nginx-pq-ready-tls",
            severity: Severity::Low,
            cwe: None,
            description: "Nginx TLS configuration negotiates a post-quantum / hybrid key exchange (X25519MLKEM768)",
            language: Language::NginxConf,
            cnsa2_deadline: None,
        }
    }

    /// The text in which the rule looks for algorithms: the file without its comments.
    pub fn scanned_text(&self, source: &str) -> (r: String)
        ensures
            r@ == stripped(source@),
    {
        strip_comments(source)
    }
}

/// Apache TLS configuration negotiates a post-quantum / hybrid key exchange (X25519MLKEM768).
#[derive(Debug, Clone, Copy)]
pub struct ApachePqReadyTls;

impl ApachePqReadyTls {
    /// What the rule says of itself.
    pub open spec fn facts() -> RuleFacts {
        RuleFacts {
            id: "config/apache-pq-ready-tls"@,
            severity: Severity::Low,
            cwe: None,
            description: "Apache TLS configuration negotiates a post-quantum / hybrid key exchange (X25519MLKEM768)"@,
            language: Language::ApacheConf,
            cnsa2_deadline: None,
        }
    }

    /// What the rule says of itself.
    pub fn info(&self) -> (r: RuleInfo)
        ensures
            r@ == Self::facts(),
    {
        RuleInfo {
            id: "config/apache-pq-ready-tls",
            severity: Severity::Low,
            cwe: None,
            description: "Apache TLS configuration negotiates a post-quantum / hybrid key exchange (X25519MLKEM768)",
            language: Language::ApacheConf,
            cnsa2_deadline: None,
        }
    }

    /// The text in which the rule looks for algorithms: the file without its comments.
    pub fn scanned_text(&self, source: &str) -> (r: String)
        ensures
            r@ == stripped(source@),
    {
        strip_comments(source)
    }
}

/// HAProxy TLS configuration negotiates a post-quantum / hybrid key exchange (X25519MLKEM768).
#[derive(Debug, Clone, Copy)]
pub struct HAProxyPqReadyTls;

impl HAProxyPqReadyTls {
    /// What the rule says of itself.
    pub open spec fn facts() -> RuleFacts {
        RuleFacts {
            id: "config/haproxy-pq-ready-tls"@,
            severity: Severity::Low,
            cwe: None,
            description: "HAProxy TLS configuration negotiates a post-quantum / hybrid key exchange (X25519MLKEM768)"@,
            language: Language::HAProxyConf,
            cnsa2_deadline: None,
        }
    }

    /// What the rule says of itself.
    pub fn info(&self) -> (r: RuleInfo)
        ensures
            r@ == Self::facts(),
    {
        RuleInfo {
            id: "config/haproxy-pq-ready-tls",
            severity: Severity::Low,
            cwe: None,
            description: "HAProxy TLS configuration negotiates a post-quantum / hybrid key exchange (X25519MLKEM768)",
            language: Language::HAProxyConf,
            cnsa2_deadline: None,
        }
    }

    /// The text in which the rule looks for algorithms: the file without its comments.
    pub fn scanned_text(&self, source: &str) -> (r: String)
        ensures
            r@ == stripped(source@),
    {
        strip_comments(source)
    }
}

/// Dockerfile disables TLS certificate verification via environment variable or insecure command.
#[derive(Debug, Clone, Copy)]
pub struct DockerfileInsecureTlsEnv;

impl DockerfileInsecureTlsEnv {
    /// What the rule says of itself.
    pub open spec fn facts() -> RuleFacts {
        RuleFacts {
            id: "config/dockerfile-insecure-tls-env"@,
            severity: Severity::High,
            cwe: Some("CWE-295"@),
            description: "Dockerfile disables TLS certificate verification via environment variable or insecure command"@,
            language: Language::Dockerfile,
            cnsa2_deadline: Some("2033"@),
        }
    }

    /// What the rule says of itself.
    pub fn info(&self) -> (r: RuleInfo)
        ensures
            r@ == Self::facts(),
    {
        RuleInfo {
            id: "config/dockerfile-insecure-tls-env",
            severity: Severity::High,
            cwe: Some("CWE-295"),
            description: "Dockerfile disables TLS certificate verification via environment variable or insecure command",
            language: Language::Dockerfile,
            cnsa2_deadline: Some("2033"),
        }
    }

    /// What the rule reports in a file.
    pub open spec fn reports(src: Text) -> Seq<Report> {
        directive_reports::<Always>(
            Self::facts(),
            "Dockerfile disables TLS verification — containers will accept any certificate, enabling MITM attacks"@,
            DOCKERFILE_INSECURE_ENV@,
            src,
        ) + directive_reports::<Always>(
            Self::facts(),
            "Dockerfile RUN command disables TLS verification — containers will accept any certificate, enabling MITM attacks"@,
            DOCKERFILE_RUN_INSECURE@,
            src,
        )
    }

    /// The findings of the rule in a file.
    pub fn check(&self, source: &str) -> (out: Vec<Finding>)
        requires
            encode_utf8(source@).len() < usize::MAX,
        ensures
            views(out@) == Self::reports(source@),
    {
        let info = self.info();
        let cleaned = strip_comments(source);
        let mut out: Vec<Finding> = Vec::new();
        check_directives::<Always>(
            &info,
            "Dockerfile disables TLS verification — containers will accept any certificate, enabling MITM attacks",
            DOCKERFILE_INSECURE_ENV,
            source,
            cleaned.as_str(),
            &mut out,
        );
        check_directives::<Always>(
            &info,
            "Dockerfile RUN command disables TLS verification — containers will accept any certificate, enabling MITM attacks",
            DOCKERFILE_RUN_INSECURE,
            source,
            cleaned.as_str(),
            &mut out,
        );
        assert(views(out@) =~= Self::reports(source@));
        out
    }
}

} // verus!
