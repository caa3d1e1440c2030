//! The vocabulary that the taint engines of all languages share: what a rule
//! looks for, what is known of a tainted value, and what is reported.
use crate::text::{concat2, concat3, opt_view, text_eq, views, Text};
use crate::text_map::{TextMap, TextSet};
use crate::tree::{Node, SyntaxTree};
use vstd::prelude::*;

verus! {

broadcast use crate::text::group_views;

/// The name that stands for every parameter in a [`NodeMatcher::ParamName`].
pub const ANY_PARAM_WILDCARD: &'static str = "$PARAM";

/// A pattern on syntax-tree nodes: a source, a sink or a sanitizer of a rule.
#[derive(Debug)]
#[allow(inconsistent_fields)]
pub enum NodeMatcher {
    /// A parameter with one of these names.
    ParamName { names: Vec<String>, description: String },
    /// A call of the function with this canonical name.
    Call { canonical: String, description: String },
    /// A call of a method with this name on any receiver.
    MethodName { method: String, description: String },
    /// A read of `root.field`.
    Attribute { root: String, field: String, description: String },
    /// A read of `field` on any receiver.
    FieldName { field: String, description: String },
    /// An index access on `base`, or on anything where there is no base.
    Subscript { base: Option<String>, description: String },
    /// A string literal whose content matches `regex`, where there is one.
    LiteralString { description: String, regex: Option<String> },
    /// A variable declared with this type.
    TypedName { declared: String, description: String },
    /// An assignment to a variable declared with this type.
    TypedAssignTarget { declared: String, description: String },
    /// A string built with an operator from a literal and another operand.
    BinopFormat { description: String },
    /// A call whose callee text matches.
    CallRegex { regex: String, description: String },
    /// A call of a method whose name matches, on any receiver.
    MethodNameRegex { regex: String, description: String },
    /// A call of any method on this receiver.
    ReceiverCall { receiver: String, description: String },
    /// The variable passed at one position of a call of this method.
    CallArgSource { method: String, arg_index: usize, description: String },
    /// The first parameter of any function.
    FirstParamSource { description: String },
    /// A call of this method with an argument built by concatenation.
    CallArgConcat { method: String, description: String },
}

/// What a [`NodeMatcher`] denotes.
#[verifier::ext_equal]
#[allow(inconsistent_fields)]
pub enum Matcher {
    ParamName { names: Seq<Text>, description: Text },
    Call { canonical: Text, description: Text },
    MethodName { method: Text, description: Text },
    Attribute { root: Text, field: Text, description: Text },
    FieldName { field: Text, description: Text },
    Subscript { base: Option<Text>, description: Text },
    LiteralString { description: Text, regex: Option<Text> },
    TypedName { declared: Text, description: Text },
    TypedAssignTarget { declared: Text, description: Text },
    BinopFormat { description: Text },
    CallRegex { regex: Text, description: Text },
    MethodNameRegex { regex: Text, description: Text },
    ReceiverCall { receiver: Text, description: Text },
    CallArgSource { method: Text, arg_index: int, description: Text },
    FirstParamSource { description: Text },
    CallArgConcat { method: Text, description: Text },
}

impl View for NodeMatcher {
    type V = Matcher;

    open spec fn view(&self) -> Matcher {
        match *self {
            NodeMatcher::ParamName { names, description } => Matcher::ParamName {
                names: views(names@),
                description: description@,
            },
            NodeMatcher::Call { canonical, description } => Matcher::Call {
                canonical: canonical@,
                description: description@,
            },
            NodeMatcher::MethodName { method, description } => Matcher::MethodName {
                method: method@,
                description: description@,
            },
            NodeMatcher::Attribute { root, field, description } => Matcher::Attribute {
                root: root@,
                field: field@,
                description: description@,
            },
            NodeMatcher::FieldName { field, description } => Matcher::FieldName {
                field: field@,
                description: description@,
            },
            NodeMatcher::Subscript { base, description } => Matcher::Subscript {
                base: opt_view(base),
                description: description@,
            },
            NodeMatcher::LiteralString { description, regex } => Matcher::LiteralString {
                description: description@,
                regex: opt_view(regex),
            },
            NodeMatcher::TypedName { declared, description } => Matcher::TypedName {
                declared: declared@,
                description: description@,
            },
            NodeMatcher::TypedAssignTarget {
                declared,
                description,
            } => Matcher::TypedAssignTarget {
                declared: declared@,
                description: description@,
            },
            NodeMatcher::BinopFormat { description } => Matcher::BinopFormat {
                description: description@,
            },
            NodeMatcher::CallRegex { regex, description } => Matcher::CallRegex {
                regex: regex@,
                description: description@,
            },
            NodeMatcher::MethodNameRegex { regex, description } => Matcher::MethodNameRegex {
                regex: regex@,
                description: description@,
            },
            NodeMatcher::ReceiverCall { receiver, description } => Matcher::ReceiverCall {
                receiver: receiver@,
                description: description@,
            },
            NodeMatcher::CallArgSource {
                method,
                arg_index,
                description,
            } => Matcher::CallArgSource {
                method: method@,
                arg_index: arg_index as int,
                description: description@,
            },
            NodeMatcher::FirstParamSource { description } => Matcher::FirstParamSource {
                description: description@,
            },
            NodeMatcher::CallArgConcat { method, description } => Matcher::CallArgConcat {
                method: method@,
                description: description@,
            },
        }
    }
}

impl Matcher {
    /// The description that the matcher carries.
    pub open spec fn description(self) -> Text {
        match self {
            Matcher::ParamName { description, .. } => description,
            Matcher::Call { description, .. } => description,
            Matcher::MethodName { description, .. } => description,
            Matcher::Attribute { description, .. } => description,
            Matcher::FieldName { description, .. } => description,
            Matcher::Subscript { description, .. } => description,
            Matcher::LiteralString { description, .. } => description,
            Matcher::TypedName { description, .. } => description,
            Matcher::TypedAssignTarget { description, .. } => description,
            Matcher::BinopFormat { description } => description,
            Matcher::CallRegex { description, .. } => description,
            Matcher::MethodNameRegex { description, .. } => description,
            Matcher::ReceiverCall { description, .. } => description,
            Matcher::CallArgSource { description, .. } => description,
            Matcher::FirstParamSource { description } => description,
            Matcher::CallArgConcat { description, .. } => description,
        }
    }
}

/// A copy of a list of strings.
pub fn clone_texts(v: &Vec<String>) -> (r: Vec<String>)
    ensures
        views(r@) == views(v@),
{
    let mut out: Vec<String> = Vec::new();
    let mut i: usize = 0;
    while i < v.len()
        invariant
            i <= v@.len(),
            views(out@) =~= views(v@).take(i as int),
        decreases v.len() - i,
    {
        out.push(v[i].clone());
        i = i + 1;
    }
    out
}

fn clone_opt_text(o: &Option<String>) -> (r: Option<String>)
    ensures
        opt_view(r) == opt_view(*o),
{
    match o {
        Some(s) => Some(s.clone()),
        None => None,
    }
}

impl Clone for NodeMatcher {
    fn clone(&self) -> (r: Self)
        ensures
            r@ == self@,
    {
        match self {
            NodeMatcher::ParamName { names, description } => NodeMatcher::ParamName {
                names: clone_texts(names),
                description: description.clone(),
            },
            NodeMatcher::Call { canonical, description } => NodeMatcher::Call {
                canonical: canonical.clone(),
                description: description.clone(),
            },
            NodeMatcher::MethodName { method, description } => NodeMatcher::MethodName {
                method: method.clone(),
                description: description.clone(),
            },
            NodeMatcher::Attribute { root, field, description } => NodeMatcher::Attribute {
                root: root.clone(),
                field: field.clone(),
                description: description.clone(),
            },
            NodeMatcher::FieldName { field, description } => NodeMatcher::FieldName {
                field: field.clone(),
                description: description.clone(),
            },
            NodeMatcher::Subscript { base, description } => NodeMatcher::Subscript {
                base: clone_opt_text(base),
                description: description.clone(),
            },
            NodeMatcher::LiteralString { description, regex } => NodeMatcher::LiteralString {
                description: description.clone(),
                regex: clone_opt_text(regex),
            },
            NodeMatcher::TypedName { declared, description } => NodeMatcher::TypedName {
                declared: declared.clone(),
                description: description.clone(),
            },
            NodeMatcher::TypedAssignTarget {
                declared,
                description,
            } => NodeMatcher::TypedAssignTarget {
                declared: declared.clone(),
                description: description.clone(),
            },
            NodeMatcher::BinopFormat { description } => NodeMatcher::BinopFormat {
                description: description.clone(),
            },
            NodeMatcher::CallRegex { regex, description } => NodeMatcher::CallRegex {
                regex: regex.clone(),
                description: description.clone(),
            },
            NodeMatcher::MethodNameRegex { regex, description } => NodeMatcher::MethodNameRegex {
                regex: regex.clone(),
                description: description.clone(),
            },
            NodeMatcher::ReceiverCall { receiver, description } => NodeMatcher::ReceiverCall {
                receiver: receiver.clone(),
                description: description.clone(),
            },
            NodeMatcher::CallArgSource {
                method,
                arg_index,
                description,
            } => NodeMatcher::CallArgSource {
                method: method.clone(),
                arg_index: *arg_index,
                description: description.clone(),
            },
            NodeMatcher::FirstParamSource { description } => NodeMatcher::FirstParamSource {
                description: description.clone(),
            },
            NodeMatcher::CallArgConcat { method, description } => NodeMatcher::CallArgConcat {
                method: method.clone(),
                description: description.clone(),
            },
        }
    }
}

impl NodeMatcher {
    /// The description that the matcher carries.
    pub fn description(&self) -> (r: &str)
        ensures
            r@ == self@.description(),
    {
        match self {
            NodeMatcher::ParamName { description, .. } => description.as_str(),
            NodeMatcher::Call { description, .. } => description.as_str(),
            NodeMatcher::MethodName { description, .. } => description.as_str(),
            NodeMatcher::Attribute { description, .. } => description.as_str(),
            NodeMatcher::FieldName { description, .. } => description.as_str(),
            NodeMatcher::Subscript { description, .. } => description.as_str(),
            NodeMatcher::LiteralString { description, .. } => description.as_str(),
            NodeMatcher::TypedName { description, .. } => description.as_str(),
            NodeMatcher::TypedAssignTarget { description, .. } => description.as_str(),
            NodeMatcher::BinopFormat { description } => description.as_str(),
            NodeMatcher::CallRegex { description, .. } => description.as_str(),
            NodeMatcher::MethodNameRegex { description, .. } => description.as_str(),
            NodeMatcher::ReceiverCall { description, .. } => description.as_str(),
            NodeMatcher::CallArgSource { description, .. } => description.as_str(),
            NodeMatcher::FirstParamSource { description } => description.as_str(),
            NodeMatcher::CallArgConcat { description, .. } => description.as_str(),
        }
    }
}

/// A call matcher.
pub fn call(canonical: &str, description: &str) -> (r: NodeMatcher)
    ensures
        r@ == (Matcher::Call { canonical: canonical@, description: description@ }),
{
    NodeMatcher::Call { canonical: canonical.to_owned(), description: description.to_owned() }
}

/// A method-name matcher.
pub fn method_name(method: &str, description: &str) -> (r: NodeMatcher)
    ensures
        r@ == (Matcher::MethodName { method: method@, description: description@ }),
{
    NodeMatcher::MethodName { method: method.to_owned(), description: description.to_owned() }
}

/// An attribute matcher.
pub fn attribute(root: &str, field: &str, description: &str) -> (r: NodeMatcher)
    ensures
        r@ == (Matcher::Attribute { root: root@, field: field@, description: description@ }),
{
    NodeMatcher::Attribute {
        root: root.to_owned(),
        field: field.to_owned(),
        description: description.to_owned(),
    }
}

/// A parameter matcher.
pub fn param_names(names: &[&str], description: &str) -> (r: NodeMatcher)
    ensures
        r@ == (Matcher::ParamName { names: views(names@), description: description@ }),
{
    let mut list: Vec<String> = Vec::new();
    let mut i: usize = 0;
    while i < names.len()
        invariant
            i <= names@.len(),
            views(list@) =~= views(names@).take(i as int),
        decreases names.len() - i,
    {
        list.push(names[i].to_owned());
        i = i + 1;
    }
    assert(views(list@) =~= views(names@));
    NodeMatcher::ParamName { names: list, description: description.to_owned() }
}

/// The matcher of calls.
pub open spec fn m_call(canonical: Text, description: Text) -> Matcher {
    Matcher::Call { canonical, description }
}

/// The matcher of method names.
pub open spec fn m_method(method: Text, description: Text) -> Matcher {
    Matcher::MethodName { method, description }
}

/// The matcher of attributes.
pub open spec fn m_attribute(root: Text, field: Text, description: Text) -> Matcher {
    Matcher::Attribute { root, field, description }
}

/// The matcher of parameters.
pub open spec fn m_params(names: Seq<Text>, description: Text) -> Matcher {
    Matcher::ParamName { names, description }
}

/// The source that the parameter `name` is when it is looked at alone.
pub open spec fn parameter_source(name: Text) -> Seq<Matcher> {
    seq![
        Matcher::ParamName {
            names: seq![name],
            description: "parameter '"@ + name + "'"@,
        },
    ]
}

/// A list with the one source that a parameter is.
pub fn parameter_sources(name: &str) -> (r: Vec<NodeMatcher>)
    ensures
        views(r@) == parameter_source(name@),
{
    let mut names: Vec<String> = Vec::new();
    names.push(name.to_owned());
    assert(views(names@) =~= seq![name@]);
    let mut out: Vec<NodeMatcher> = Vec::new();
    out.push(
        NodeMatcher::ParamName { names, description: concat3("parameter '", name, "'") },
    );
    assert(views(out@) =~= parameter_source(name@));
    out
}

/// Whether a list of parameter names holds the wildcard.
pub open spec fn is_wildcard(names: Seq<Text>) -> bool {
    names.contains(ANY_PARAM_WILDCARD@)
}

/// Whether a list of texts holds `name`.
pub fn has_text(names: &Vec<String>, name: &str) -> (r: bool)
    ensures
        r == views(names@).contains(name@),
{
    let mut i: usize = 0;
    while i < names.len()
        invariant
            i <= names@.len(),
            forall|k: int| 0 <= k < i ==> #[trigger] views(names@)[k] != name@,
        decreases names.len() - i,
    {
        if text_eq(names[i].as_str(), name) {
            assert(views(names@)[i as int] == name@);
            return true;
        }
        i = i + 1;
    }
    assert forall|k: int| 0 <= k < views(names@).len() implies views(names@)[k] != name@ by {}
    false
}

/// Whether a list of parameter names stands for every parameter.
pub fn param_names_are_wildcard(names: &Vec<String>) -> (r: bool)
    ensures
        r == is_wildcard(views(names@)),
{
    has_text(names, ANY_PARAM_WILDCARD)
}

/// A copy of a list of matchers.
pub fn clone_matchers(v: &Vec<NodeMatcher>) -> (r: Vec<NodeMatcher>)
    ensures
        views(r@) == views(v@),
{
    let mut out: Vec<NodeMatcher> = Vec::new();
    extend_matchers(&mut out, v);
    assert(views(out@) =~= views(v@));
    out
}

/// Appends copies of the matchers of `more`.
pub fn extend_matchers(v: &mut Vec<NodeMatcher>, more: &Vec<NodeMatcher>)
    ensures
        views(final(v)@) == views(old(v)@) + views(more@),
{
    let mut i: usize = 0;
    while i < more.len()
        invariant
            i <= more@.len(),
            views(v@) =~= views(old(v)@) + views(more@).take(i as int),
        decreases more.len() - i,
    {
        v.push(more[i].clone());
        i = i + 1;
    }
}

fn same_opt(a: &Option<String>, b: &Option<String>) -> (r: bool)
    ensures
        r == (opt_view(*a) == opt_view(*b)),
{
    match (a, b) {
        (Some(x), Some(y)) => text_eq(x.as_str(), y.as_str()),
        (None, None) => true,
        _ => false,
    }
}

/// Whether two lists of strings are the same.
pub fn same_texts(a: &Vec<String>, b: &Vec<String>) -> (r: bool)
    ensures
        r == (views(a@) == views(b@)),
{
    assert(views(a@).len() == a@.len() && views(b@).len() == b@.len());
    if a.len() != b.len() {
        return false;
    }
    let mut i: usize = 0;
    while i < a.len()
        invariant
            i <= a@.len(),
            a@.len() == b@.len(),
            forall|k: int| 0 <= k < i ==> #[trigger] views(a@)[k] == views(b@)[k],
        decreases a.len() - i,
    {
        assert(views(a@)[i as int] == a@[i as int]@);
        assert(views(b@)[i as int] == b@[i as int]@);
        if !text_eq(a[i].as_str(), b[i].as_str()) {
            return false;
        }
        i = i + 1;
    }
    assert(views(a@) =~= views(b@));
    true
}

/// Whether two matchers are the same.
pub fn same_matcher(a: &NodeMatcher, b: &NodeMatcher) -> (r: bool)
    ensures
        r == (a@ == b@),
{
    match (a, b) {
        (
            NodeMatcher::ParamName { names: x, description: d },
            NodeMatcher::ParamName { names: y, description: e },
        ) => same_texts(x, y) && text_eq(d.as_str(), e.as_str()),
        (
            NodeMatcher::Call { canonical: x, description: d },
            NodeMatcher::Call { canonical: y, description: e },
        ) => text_eq(x.as_str(), y.as_str()) && text_eq(d.as_str(), e.as_str()),
        (
            NodeMatcher::MethodName { method: x, description: d },
            NodeMatcher::MethodName { method: y, description: e },
        ) => text_eq(x.as_str(), y.as_str()) && text_eq(d.as_str(), e.as_str()),
        (
            NodeMatcher::Attribute { root: x, field: f, description: d },
            NodeMatcher::Attribute { root: y, field: g, description: e },
        ) => text_eq(x.as_str(), y.as_str()) && text_eq(f.as_str(), g.as_str()) && text_eq(
            d.as_str(),
            e.as_str(),
        ),
        (
            NodeMatcher::FieldName { field: x, description: d },
            NodeMatcher::FieldName { field: y, description: e },
        ) => text_eq(x.as_str(), y.as_str()) && text_eq(d.as_str(), e.as_str()),
        (
            NodeMatcher::Subscript { base: x, description: d },
            NodeMatcher::Subscript { base: y, description: e },
        ) => same_opt(x, y) && text_eq(d.as_str(), e.as_str()),
        (
            NodeMatcher::LiteralString { regex: x, description: d },
            NodeMatcher::LiteralString { regex: y, description: e },
        ) => same_opt(x, y) && text_eq(d.as_str(), e.as_str()),
        (
            NodeMatcher::TypedName { declared: x, description: d },
            NodeMatcher::TypedName { declared: y, description: e },
        ) => text_eq(x.as_str(), y.as_str()) && text_eq(d.as_str(), e.as_str()),
        (
            NodeMatcher::TypedAssignTarget { declared: x, description: d },
            NodeMatcher::TypedAssignTarget { declared: y, description: e },
        ) => text_eq(x.as_str(), y.as_str()) && text_eq(d.as_str(), e.as_str()),
        (
            NodeMatcher::BinopFormat { description: d },
            NodeMatcher::BinopFormat { description: e },
        ) => text_eq(d.as_str(), e.as_str()),
        (
            NodeMatcher::CallRegex { regex: x, description: d },
            NodeMatcher::CallRegex { regex: y, description: e },
        ) => text_eq(x.as_str(), y.as_str()) && text_eq(d.as_str(), e.as_str()),
        (
            NodeMatcher::MethodNameRegex { regex: x, description: d },
            NodeMatcher::MethodNameRegex { regex: y, description: e },
        ) => text_eq(x.as_str(), y.as_str()) && text_eq(d.as_str(), e.as_str()),
        (
            NodeMatcher::ReceiverCall { receiver: x, description: d },
            NodeMatcher::ReceiverCall { receiver: y, description: e },
        ) => text_eq(x.as_str(), y.as_str()) && text_eq(d.as_str(), e.as_str()),
        (
            NodeMatcher::CallArgSource { method: x, arg_index: i, description: d },
            NodeMatcher::CallArgSource { method: y, arg_index: j, description: e },
        ) => text_eq(x.as_str(), y.as_str()) && *i == *j && text_eq(d.as_str(), e.as_str()),
        (
            NodeMatcher::FirstParamSource { description: d },
            NodeMatcher::FirstParamSource { description: e },
        ) => text_eq(d.as_str(), e.as_str()),
        (
            NodeMatcher::CallArgConcat { method: x, description: d },
            NodeMatcher::CallArgConcat { method: y, description: e },
        ) => text_eq(x.as_str(), y.as_str()) && text_eq(d.as_str(), e.as_str()),
        _ => false,
    }
}

/// Whether two lists of matchers are the same.
pub fn same_matchers(a: &Vec<NodeMatcher>, b: &Vec<NodeMatcher>) -> (r: bool)
    ensures
        r == (views(a@) == views(b@)),
{
    assert(views(a@).len() == a@.len() && views(b@).len() == b@.len());
    if a.len() != b.len() {
        return false;
    }
    let mut i: usize = 0;
    while i < a.len()
        invariant
            i <= a@.len(),
            a@.len() == b@.len(),
            forall|k: int| 0 <= k < i ==> #[trigger] views(a@)[k] == views(b@)[k],
        decreases a.len() - i,
    {
        assert(views(a@)[i as int] == a@[i as int]@);
        assert(views(b@)[i as int] == b@[i as int]@);
        if !same_matcher(&a[i], &b[i]) {
            return false;
        }
        i = i + 1;
    }
    assert(views(a@) =~= views(b@));
    true
}

/// The description of the first source from `from` on that is a parameter of this name.
pub open spec fn param_source(sources: Seq<Matcher>, from: int, name: Text) -> Option<Text>
    decreases sources.len() - from,
{
    if from < 0 || from >= sources.len() {
        None
    } else if sources[from] is ParamName && (sources[from]->names.contains(name) || is_wildcard(
        sources[from]->names,
    )) {
        Some(sources[from].description())
    } else {
        param_source(sources, from + 1, name)
    }
}

/// The description of the first source that is a parameter of this name.
pub fn match_param_source(spec: &TaintSpec, name: &str) -> (r: Option<String>)
    ensures
        opt_view(r) == param_source(spec@.sources, 0, name@),
{
    let mut k: usize = 0;
    while k < spec.sources.len()
        invariant
            k <= spec.sources@.len(),
            param_source(spec@.sources, 0, name@) == param_source(spec@.sources, k as int, name@),
        decreases spec.sources.len() - k,
    {
        assert(spec@.sources[k as int] == spec.sources@[k as int]@);
        match &spec.sources[k] {
            NodeMatcher::ParamName { names, description } => {
                if has_text(names, name) || param_names_are_wildcard(names) {
                    return Some(description.clone());
                }
            },
            _ => {},
        }
        k = k + 1;
    }
    None
}

/// The description of the first of `ms[from..]` that is for calls of `name`.
pub open spec fn call_named(ms: Seq<Matcher>, from: int, name: Text) -> Option<Text>
    decreases ms.len() - from,
{
    if from < 0 || from >= ms.len() {
        None
    } else {
        match ms[from] {
            Matcher::Call { canonical, description } => if canonical == name {
                Some(description)
            } else {
                call_named(ms, from + 1, name)
            },
            _ => call_named(ms, from + 1, name),
        }
    }
}

/// The description of the first matcher that is for calls of `name`.
pub fn match_call_name(ms: &Vec<NodeMatcher>, name: &str) -> (r: Option<String>)
    ensures
        opt_view(r) == call_named(views(ms@), 0, name@),
{
    let mut k: usize = 0;
    while k < ms.len()
        invariant
            k <= ms@.len(),
            call_named(views(ms@), 0, name@) == call_named(views(ms@), k as int, name@),
        decreases ms.len() - k,
    {
        assert(views(ms@)[k as int] == ms@[k as int]@);
        match &ms[k] {
            NodeMatcher::Call { canonical, description } => {
                if text_eq(canonical.as_str(), name) {
                    return Some(description.clone());
                }
            },
            _ => {},
        }
        k = k + 1;
    }
    None
}

/// A taint rule: where taint comes from, where it must not arrive, what takes it away.
#[derive(Debug)]
pub struct TaintSpec {
    pub sources: Vec<NodeMatcher>,
    pub sinks: Vec<NodeMatcher>,
    pub sanitizers: Vec<NodeMatcher>,
}

/// What a [`TaintSpec`] denotes.
#[verifier::ext_equal]
pub struct TaintRule {
    pub sources: Seq<Matcher>,
    pub sinks: Seq<Matcher>,
    pub sanitizers: Seq<Matcher>,
}

impl View for TaintSpec {
    type V = TaintRule;

    open spec fn view(&self) -> TaintRule {
        TaintRule {
            sources: views(self.sources@),
            sinks: views(self.sinks@),
            sanitizers: views(self.sanitizers@),
        }
    }
}

impl Clone for TaintSpec {
    fn clone(&self) -> (r: Self)
        ensures
            r@ == self@,
    {
        TaintSpec {
            sources: clone_matchers(&self.sources),
            sinks: clone_matchers(&self.sinks),
            sanitizers: clone_matchers(&self.sanitizers),
        }
    }
}

/// The rule that looks for nothing.
pub open spec fn empty_rule() -> TaintRule {
    TaintRule { sources: Seq::empty(), sinks: Seq::empty(), sanitizers: Seq::empty() }
}

impl Default for TaintSpec {
    fn default() -> (r: Self)
        ensures
            r@ == empty_rule(),
    {
        TaintSpec { sources: Vec::new(), sinks: Vec::new(), sanitizers: Vec::new() }
    }
}

/// A call on a receiver through which tainted arguments taint the receiver.
/// Without a method name every method counts.
#[derive(Debug)]
pub struct Propagator {
    pub method: Option<String>,
}

impl View for Propagator {
    type V = Option<Text>;

    open spec fn view(&self) -> Option<Text> {
        opt_view(self.method)
    }
}

// ─── Labels ──────────────────────────────────────────────────────────────────
/// A set of taint labels.
pub type LabelSet = TextSet;

/// A boolean condition on the labels of a value.
#[derive(Debug)]
pub enum LabelExpr {
    Label(String),
    Not(Box<LabelExpr>),
    And(Box<LabelExpr>, Box<LabelExpr>),
    Or(Box<LabelExpr>, Box<LabelExpr>),
}

impl LabelExpr {
    /// Whether a set of labels meets the condition.
    pub open spec fn holds(&self, labels: Set<Text>) -> bool
        decreases self,
    {
        match *self {
            LabelExpr::Label(name) => labels.contains(name@),
            LabelExpr::Not(e) => !e.holds(labels),
            LabelExpr::And(a, b) => a.holds(labels) && b.holds(labels),
            LabelExpr::Or(a, b) => a.holds(labels) || b.holds(labels),
        }
    }

    /// Whether a set of labels meets the condition.
    pub fn eval(&self, labels: &LabelSet) -> (r: bool)
        ensures
            r == self.holds(labels@),
        decreases self,
    {
        match self {
            LabelExpr::Label(name) => labels.contains(name.as_str()),
            LabelExpr::Not(e) => !e.eval(labels),
            LabelExpr::And(a, b) => a.eval(labels) && b.eval(labels),
            LabelExpr::Or(a, b) => a.eval(labels) || b.eval(labels),
        }
    }
}

/// A value with the label `from` gains the label `to` where a string is built.
#[derive(Debug)]
pub struct Relabel {
    pub from: String,
    pub to: String,
}

impl View for Relabel {
    type V = (Text, Text);

    open spec fn view(&self) -> (Text, Text) {
        (self.from@, self.to@)
    }
}

/// How labels are given, changed and required.
#[derive(Debug)]
pub struct LabelPolicy {
    /// The label of a fresh source.
    pub source_label: String,
    pub relabels: Vec<Relabel>,
    /// What the labels must meet at a sink.
    pub sink_requires: LabelExpr,
}

/// The labels added to `base` by the relabelings whose `from` label `base` holds.
pub open spec fn relabel_set(base: Set<Text>, relabels: Seq<(Text, Text)>) -> Set<Text>
    decreases relabels.len(),
{
    if relabels.len() == 0 {
        base
    } else {
        let done = relabel_set(base, relabels.drop_last());
        if base.contains(relabels.last().0) {
            done.insert(relabels.last().1)
        } else {
            done
        }
    }
}

/// What relabelling adds: the targets of the relabels whose label is there before.
pub proof fn relabelling_adds_targets(base: Set<Text>, relabels: Seq<(Text, Text)>, label: Text)
    ensures
        relabel_set(base, relabels).contains(label) <==> base.contains(label) || exists|k: int|
            #![trigger relabels[k]]
            0 <= k < relabels.len() && base.contains(relabels[k].0) && relabels[k].1 == label,
    decreases relabels.len(),
{
    if relabels.len() > 0 {
        let init = relabels.drop_last();
        relabelling_adds_targets(base, init, label);
        if exists|k: int|
            #![trigger relabels[k]]
            0 <= k < relabels.len() && base.contains(relabels[k].0) && relabels[k].1 == label {
            let k = choose|k: int|
                #![trigger relabels[k]]
                0 <= k < relabels.len() && base.contains(relabels[k].0) && relabels[k].1 == label;
            if k < init.len() {
                assert(init[k] == relabels[k]);
            }
        }
        assert forall|k: int| 0 <= k < init.len() implies #[trigger] init[k] == relabels[k] by {}
    }
}

/// Relabelling twice is relabelling once, unless a relabel starts from a label that only
/// another one adds.
pub proof fn relabelling_is_idempotent(base: Set<Text>, relabels: Seq<(Text, Text)>)
    requires
        forall|j: int, k: int|
            #![trigger relabels[j], relabels[k]]
            0 <= j < relabels.len() && 0 <= k < relabels.len() && base.contains(relabels[j].0)
                && relabels[j].1 == relabels[k].0 ==> relabel_set(base, relabels).contains(
                relabels[k].1,
            ),
    ensures
        relabel_set(relabel_set(base, relabels), relabels) == relabel_set(base, relabels),
{
    let once = relabel_set(base, relabels);
    let twice = relabel_set(once, relabels);
    assert forall|label: Text| twice.contains(label) == once.contains(label) by {
        relabelling_adds_targets(once, relabels, label);
        if twice.contains(label) && !once.contains(label) {
            let k = choose|k: int|
                #![trigger relabels[k]]
                0 <= k < relabels.len() && once.contains(relabels[k].0) && relabels[k].1 == label;
            relabelling_adds_targets(base, relabels, relabels[k].0);
            relabelling_adds_targets(base, relabels, relabels[k].1);
        }
    }
    assert(twice =~= once);
}

/// Adds to a label set what the policy's relabelings give it.
pub fn relabel(labels: LabelSet, relabels: &Vec<Relabel>) -> (r: LabelSet)
    ensures
        r@ == relabel_set(labels@, views(relabels@)),
{
    let mut out = labels.clone();
    let mut i: usize = 0;
    assert(views(relabels@).take(0) =~= Seq::empty());
    while i < relabels.len()
        invariant
            i <= relabels@.len(),
            out@ == relabel_set(labels@, views(relabels@).take(i as int)),
        decreases relabels.len() - i,
    {
        proof {
            let now = views(relabels@).take(i + 1);
            assert(now.drop_last() =~= views(relabels@).take(i as int));
            assert(now.last() == relabels@[i as int]@);
        }
        if labels.contains(relabels[i].from.as_str()) {
            out.insert(relabels[i].to.clone());
        }
        i = i + 1;
    }
    assert(views(relabels@).take(relabels@.len() as int) =~= views(relabels@));
    out
}

/// The labels of a fresh source: the policy's label, or no set without a policy.
pub open spec fn source_labels_spec(policy: Option<&LabelPolicy>) -> Option<Set<Text>> {
    match policy {
        Some(p) => Some(Set::<Text>::empty().insert(p.source_label@)),
        None => None,
    }
}

/// The labels of a fresh source.
pub fn source_labels(policy: Option<&LabelPolicy>) -> (r: Option<LabelSet>)
    ensures
        opt_view(r) == source_labels_spec(policy),
{
    match policy {
        Some(p) => {
            let mut set = LabelSet::new();
            set.insert(p.source_label.clone());
            Some(set)
        },
        None => None,
    }
}

// ─── Taint state ─────────────────────────────────────────────────────────────
/// What is known of a tainted value.
#[derive(Debug)]
pub struct TaintInfo {
    /// Where the taint came from.
    pub description: String,
    /// The line of the source.
    pub line: usize,
    /// How many steps the taint has taken, up to the largest count.
    pub hops: u8,
    pub labels: Option<LabelSet>,
}

/// What a [`TaintInfo`] denotes.
#[verifier::ext_equal]
pub struct Info {
    pub description: Text,
    pub line: int,
    pub hops: int,
    pub labels: Option<Set<Text>>,
}

impl View for TaintInfo {
    type V = Info;

    open spec fn view(&self) -> Info {
        Info {
            description: self.description@,
            line: self.line as int,
            hops: self.hops as int,
            labels: opt_view(self.labels),
        }
    }
}

impl Clone for TaintInfo {
    fn clone(&self) -> (r: Self)
        ensures
            r@ == self@,
    {
        TaintInfo {
            description: self.description.clone(),
            line: self.line,
            hops: self.hops,
            labels: match &self.labels {
                Some(l) => Some(l.clone()),
                None => None,
            },
        }
    }
}

impl Info {
    /// The value one step further on.
    pub open spec fn bumped(self) -> Info {
        Info {
            hops: if self.hops < 255 {
                self.hops + 1
            } else {
                255
            },
            ..self
        }
    }
}

/// The value one step further on.
pub fn bump_hops(info: TaintInfo) -> (r: TaintInfo)
    ensures
        r@ == info@.bumped(),
{
    let hops: u8 = if info.hops < 255 {
        info.hops + 1
    } else {
        255
    };
    TaintInfo { description: info.description, line: info.line, hops, labels: info.labels }
}

/// The variables that are tainted at one point of a scope.
#[derive(Debug)]
pub struct TaintState {
    tainted: TextMap<TaintInfo>,
}

impl View for TaintState {
    type V = Map<Text, Info>;

    closed spec fn view(&self) -> Map<Text, Info> {
        Map::new(|k: Text| self.tainted@.contains_key(k), |k: Text| self.tainted@[k]@)
    }
}

/// What is known of the variable `name`.
pub open spec fn lookup(state: Map<Text, Info>, name: Text) -> Option<Info> {
    if state.contains_key(name) {
        Some(state[name])
    } else {
        None
    }
}

impl TaintState {
    /// The state in which nothing is tainted.
    pub fn new() -> (r: Self)
        ensures
            r@ == Map::<Text, Info>::empty(),
    {
        let r = TaintState { tainted: TextMap::new() };
        assert(r@ =~= Map::<Text, Info>::empty());
        r
    }

    /// Marks a variable as tainted.
    pub fn taint(&mut self, name: String, info: TaintInfo)
        ensures
            final(self)@ == old(self)@.insert(name@, info@),
    {
        self.tainted.insert(name, info);
        assert(self@ =~= old(self)@.insert(name@, info@));
    }

    /// Marks a variable as clean.
    pub fn clear(&mut self, name: &str)
        ensures
            final(self)@ == old(self)@.remove(name@),
    {
        self.tainted.remove(name);
        assert(self@ =~= old(self)@.remove(name@));
    }

    /// What is known of a variable.
    pub fn info(&self, name: &str) -> (r: Option<&TaintInfo>)
        ensures
            match r {
                Some(i) => lookup(self@, name@) == Some(i@),
                None => lookup(self@, name@) is None,
            },
    {
        self.tainted.get(name)
    }
}

// ─── Findings ────────────────────────────────────────────────────────────────
/// A flow of taint from a source to a sink.
#[derive(Debug)]
pub struct TaintFinding {
    pub sink_start_byte: usize,
    pub sink_end_byte: usize,
    pub sink_line: usize,
    pub sink_column: usize,
    pub sink_end_line: usize,
    pub sink_end_column: usize,
    pub source_description: String,
    pub sink_description: String,
    pub source_line: usize,
    /// The rule that the flow belongs to, where it is known.
    pub rule_id_hint: Option<String>,
    pub hops: u8,
}

/// What a [`TaintFinding`] denotes.
#[verifier::ext_equal]
pub struct Flow {
    pub sink_start_byte: int,
    pub sink_end_byte: int,
    pub sink_line: int,
    pub sink_column: int,
    pub sink_end_line: int,
    pub sink_end_column: int,
    pub source_description: Text,
    pub sink_description: Text,
    pub source_line: int,
    pub rule_id_hint: Option<Text>,
    pub hops: int,
}

impl View for TaintFinding {
    type V = Flow;

    open spec fn view(&self) -> Flow {
        Flow {
            sink_start_byte: self.sink_start_byte as int,
            sink_end_byte: self.sink_end_byte as int,
            sink_line: self.sink_line as int,
            sink_column: self.sink_column as int,
            sink_end_line: self.sink_end_line as int,
            sink_end_column: self.sink_end_column as int,
            source_description: self.source_description@,
            sink_description: self.sink_description@,
            source_line: self.source_line as int,
            rule_id_hint: opt_view(self.rule_id_hint),
            hops: self.hops as int,
        }
    }
}

/// The flow into node `i` of the tree.
pub open spec fn flow_at(
    t: &SyntaxTree,
    i: int,
    source_description: Text,
    source_line: int,
    sink_description: Text,
    rule_id_hint: Option<Text>,
    hops: int,
) -> Flow {
    let d = t.nodes@[i];
    Flow {
        sink_start_byte: d.start_byte as int,
        sink_end_byte: d.end_byte as int,
        sink_line: d.start_row + 1,
        sink_column: d.start_column + 1,
        sink_end_line: d.end_row + 1,
        sink_end_column: d.end_column + 1,
        source_description,
        sink_description,
        source_line,
        rule_id_hint,
        hops,
    }
}

/// The flow of the value `info` into node `i`. A flow takes one step at least.
pub open spec fn flow_of_info(t: &SyntaxTree, i: int, info: Info, sink_description: Text) -> Flow {
    flow_at(
        t,
        i,
        info.description,
        info.line,
        sink_description,
        None,
        if info.hops < 1 {
            1
        } else {
            info.hops
        },
    )
}

/// The flow into a node.
pub fn taint_finding_at(
    node: Node<'_>,
    source_description: String,
    source_line: usize,
    sink_description: String,
    rule_id_hint: Option<String>,
    hops: u8,
) -> (r: TaintFinding)
    requires
        node.wf(),
    ensures
        r@ == flow_at(
            node.tree,
            node.index as int,
            source_description@,
            source_line as int,
            sink_description@,
            opt_view(rule_id_hint),
            hops as int,
        ),
{
    reveal(SyntaxTree::wf);
    let d = &node.tree.nodes[node.index];
    TaintFinding {
        sink_start_byte: d.start_byte,
        sink_end_byte: d.end_byte,
        sink_line: d.start_row + 1,
        sink_column: d.start_column + 1,
        sink_end_line: d.end_row + 1,
        sink_end_column: d.end_column + 1,
        source_description,
        sink_description,
        source_line,
        rule_id_hint,
        hops,
    }
}

/// The flow of a value into a node.
pub fn taint_finding_for_node(node: Node<'_>, info: TaintInfo, sink_description: String) -> (r:
    TaintFinding)
    requires
        node.wf(),
    ensures
        r@ == flow_of_info(node.tree, node.index as int, info@, sink_description@),
{
    let hops: u8 = if info.hops < 1 {
        1
    } else {
        info.hops
    };
    taint_finding_at(node, info.description, info.line, sink_description, None, hops)
}

/// The description of a sink that is reached in another file.
pub open spec fn cross_file_sink(sink_description: Text, callee: Text) -> Text {
    sink_description + " (via cross-file call to "@ + callee + ")"@
}

/// The flow into a sink of another file by a call at node `i`.
pub open spec fn cross_file_flow(
    t: &SyntaxTree,
    i: int,
    source_description: Text,
    source_line: int,
    sink_description: Text,
    callee: Text,
    rule_id: Text,
) -> Flow {
    flow_at(
        t,
        i,
        source_description,
        source_line,
        cross_file_sink(sink_description, callee),
        Some(rule_id),
        2,
    )
}

/// The flow into a sink of another file by a call.
pub fn cross_file_taint_finding(
    node: Node<'_>,
    source_description: String,
    source_line: usize,
    sink_description: &str,
    callee: &str,
    rule_id: &str,
) -> (r: TaintFinding)
    requires
        node.wf(),
    ensures
        r@ == cross_file_flow(
            node.tree,
            node.index as int,
            source_description@,
            source_line as int,
            sink_description@,
            callee@,
            rule_id@,
        ),
{
    let mut sink = concat2(sink_description, " (via cross-file call to ");
    crate::text::append(&mut sink, callee);
    crate::text::append(&mut sink, ")");
    taint_finding_at(node, source_description, source_line, sink, Some(rule_id.to_owned()), 2)
}

} // verus!
