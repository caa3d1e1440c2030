//! What a scan reports.
use crate::text::{opt_view, views, Text};
use vstd::prelude::*;

verus! {

/// How bad a finding is.
#[derive(Debug, Clone, Copy, PartialEq, Eq, Structural)]
pub enum Severity {
    Critical,
    High,
    Medium,
    Low,
}

/// The languages and file formats that a rule can speak of.
#[derive(Debug, Clone, Copy, PartialEq, Eq, Structural)]
pub enum Language {
    JavaScript,
    Python,
    Go,
    Ruby,
    Java,
    Php,
    Rust,
    CSharp,
    Swift,
    Kotlin,
    C,
    NginxConf,
    ApacheConf,
    HAProxyConf,
    Dockerfile,
    Manifest,
    Bash,
    Apex,
}

/// What a rule says of itself.
#[derive(Debug, Clone, Copy)]
pub struct RuleInfo {
    pub id: &'static str,
    pub severity: Severity,
    pub cwe: Option<&'static str>,
    pub description: &'static str,
    pub language: Language,
    /// The year by which the national-security suite replaces what the rule finds.
    pub cnsa2_deadline: Option<&'static str>,
}

/// What a [`RuleInfo`] denotes.
#[verifier::ext_equal]
pub struct RuleFacts {
    pub id: Text,
    pub severity: Severity,
    pub cwe: Option<Text>,
    pub description: Text,
    pub language: Language,
    pub cnsa2_deadline: Option<Text>,
}

impl View for RuleInfo {
    type V = RuleFacts;

    open spec fn view(&self) -> RuleFacts {
        RuleFacts {
            id: self.id@,
            severity: self.severity,
            cwe: opt_view(self.cwe),
            description: self.description@,
            language: self.language,
            cnsa2_deadline: opt_view(self.cnsa2_deadline),
        }
    }
}

/// A finding in a file.
#[derive(Debug)]
pub struct Finding {
    pub rule_id: String,
    pub severity: Severity,
    pub cwe: Option<String>,
    pub description: String,
    pub file: String,
    pub line: usize,
    pub column: usize,
    pub end_line: usize,
    pub end_column: usize,
    pub snippet: String,
    pub source_line: Option<usize>,
    pub source_description: Option<String>,
    pub sink_line: Option<usize>,
    pub sink_description: Option<String>,
    pub fix_suggestion: Option<String>,
    pub sink_start_byte: Option<usize>,
    pub sink_end_byte: Option<usize>,
    /// How sure the finding is, in percent.
    pub confidence: u8,
    pub taint_hops: Option<u8>,
    pub tags: Vec<String>,
    pub crypto_algorithm: Option<String>,
    pub cnsa2_deadline: Option<String>,
}

/// What a [`Finding`] denotes.
#[verifier::ext_equal]
pub struct Report {
    pub rule_id: Text,
    pub severity: Severity,
    pub cwe: Option<Text>,
    pub description: Text,
    pub file: Text,
    pub line: int,
    pub column: int,
    pub end_line: int,
    pub end_column: int,
    pub snippet: Text,
    pub source_line: Option<int>,
    pub source_description: Option<Text>,
    pub sink_line: Option<int>,
    pub sink_description: Option<Text>,
    pub fix_suggestion: Option<Text>,
    pub sink_start_byte: Option<int>,
    pub sink_end_byte: Option<int>,
    pub confidence: int,
    pub taint_hops: Option<int>,
    pub tags: Seq<Text>,
    pub crypto_algorithm: Option<Text>,
    pub cnsa2_deadline: Option<Text>,
}

/// An optional machine integer as an integer.
pub open spec fn opt_int(o: Option<usize>) -> Option<int> {
    match o {
        Some(x) => Some(x as int),
        None => None,
    }
}

/// An optional byte as an integer.
pub open spec fn opt_byte(o: Option<u8>) -> Option<int> {
    match o {
        Some(x) => Some(x as int),
        None => None,
    }
}

impl View for Finding {
    type V = Report;

    open spec fn view(&self) -> Report {
        Report {
            rule_id: self.rule_id@,
            severity: self.severity,
            cwe: opt_view(self.cwe),
            description: self.description@,
            file: self.file@,
            line: self.line as int,
            column: self.column as int,
            end_line: self.end_line as int,
            end_column: self.end_column as int,
            snippet: self.snippet@,
            source_line: opt_int(self.source_line),
            source_description: opt_view(self.source_description),
            sink_line: opt_int(self.sink_line),
            sink_description: opt_view(self.sink_description),
            fix_suggestion: opt_view(self.fix_suggestion),
            sink_start_byte: opt_int(self.sink_start_byte),
            sink_end_byte: opt_int(self.sink_end_byte),
            confidence: self.confidence as int,
            taint_hops: opt_byte(self.taint_hops),
            tags: views(self.tags@),
            crypto_algorithm: opt_view(self.crypto_algorithm),
            cnsa2_deadline: opt_view(self.cnsa2_deadline),
        }
    }
}

/// The report of a rule that saw no flow of taint.
pub open spec fn plain_report(
    rule_id: Text,
    severity: Severity,
    cwe: Option<Text>,
    description: Text,
    line: int,
    column: int,
    end_line: int,
    end_column: int,
    snippet: Text,
) -> Report {
    Report {
        rule_id,
        severity,
        cwe,
        description,
        file: Seq::empty(),
        line,
        column,
        end_line,
        end_column,
        snippet,
        source_line: None,
        source_description: None,
        sink_line: None,
        sink_description: None,
        fix_suggestion: None,
        sink_start_byte: None,
        sink_end_byte: None,
        confidence: 100,
        taint_hops: None,
        tags: Seq::empty(),
        crypto_algorithm: None,
        cnsa2_deadline: None,
    }
}

/// An owned copy of an optional string.
pub fn own(o: Option<&str>) -> (r: Option<String>)
    ensures
        opt_view(r) == opt_view(o),
{
    match o {
        Some(s) => Some(s.to_owned()),
        None => None,
    }
}

/// The finding of a rule that saw no flow of taint.
pub fn plain_finding(
    rule_id: &str,
    severity: Severity,
    cwe: Option<&str>,
    description: &str,
    line: usize,
    column: usize,
    end_line: usize,
    end_column: usize,
    snippet: String,
) -> (r: Finding)
    ensures
        r@ == plain_report(
            rule_id@,
            severity,
            opt_view(cwe),
            description@,
            line as int,
            column as int,
            end_line as int,
            end_column as int,
            snippet@,
        ),
{
    let r = Finding {
        rule_id: rule_id.to_owned(),
        severity,
        cwe: own(cwe),
        description: description.to_owned(),
        file: String::new(),
        line,
        column,
        end_line,
        end_column,
        snippet,
        source_line: None,
        source_description: None,
        sink_line: None,
        sink_description: None,
        fix_suggestion: None,
        sink_start_byte: None,
        sink_end_byte: None,
        confidence: 100,
        taint_hops: None,
        tags: Vec::new(),
        crypto_algorithm: None,
        cnsa2_deadline: None,
    };
    assert(views(r.tags@) =~= Seq::empty());
    r
}

} // verus!
