//! How the tables of sources and sinks go with what the rules look for.
use crate::c_flow_laws::{is_filled, lists, runs_its_first_argument};
use crate::c_taint::{c_rules, c_sources};
use crate::go::{go_rules, TaintCommandInjection, TaintSsrf};
use crate::go_rule_laws::is_address;
use crate::go_taint::go_sources;
use crate::java_taint::{java_rules, java_sources, ssrf_rule};
use crate::taint_engine::{m_call, Matcher};
use crate::text::Text;
use vstd::prelude::*;

verus! {

/// Whether one of the matchers is for the method `name`.
pub open spec fn lists_method(ms: Seq<Matcher>, name: Text) -> bool {
    exists|k: int|
        #![trigger ms[k]]
        0 <= k < ms.len() && (ms[k] matches Matcher::MethodName { method, .. } && method == name)
}

proof fn lemma_lists(ms: Seq<Matcher>, k: int, name: Text, description: Text)
    requires
        0 <= k < ms.len(),
        ms[k] == m_call(name, description),
    ensures
        lists(ms, name),
{
}

/// All rules for one language distrust the same sources.
pub proof fn the_rules_of_a_language_share_their_sources(k: int)
    ensures
        0 <= k < go_rules().len() ==> go_rules()[k].1.sources == go_sources(),
        0 <= k < java_rules().len() ==> java_rules()[k].1.sources == java_sources(),
        0 <= k < c_rules().len() ==> c_rules()[k].1.sources == c_sources(),
{
}

/// Whatever runs a command or sends a request in Go is a sink of the taint rule for it, by the
/// same name.
pub proof fn what_go_rules_look_for_is_a_sink(f: Text, k: int)
    ensures
        f == "exec.Command"@ || f == "exec.CommandContext"@ ==> lists(
            TaintCommandInjection::rule().sinks,
            f,
        ),
        is_address(f, k) ==> lists(TaintSsrf::rule().sinks, f),
{
    let run = TaintCommandInjection::rule().sinks;
    lemma_lists(run, 0, "exec.Command"@, "exec.Command"@);
    lemma_lists(run, 1, "exec.CommandContext"@, "exec.CommandContext"@);
    let sent = TaintSsrf::rule().sinks;
    lemma_lists(sent, 0, "http.Get"@, "http.Get"@);
    lemma_lists(sent, 1, "http.Post"@, "http.Post"@);
    lemma_lists(sent, 2, "http.PostForm"@, "http.PostForm"@);
    lemma_lists(sent, 3, "http.NewRequest"@, "http.NewRequest"@);
    lemma_lists(sent, 4, "http.NewRequestWithContext"@, "http.NewRequestWithContext"@);
    lemma_lists(sent, 5, "http.Head"@, "http.Head"@);
}

/// Whatever sends a request through a template in Java is a sink of the taint rule for it, and
/// so is a new address.
pub proof fn what_java_rules_look_for_is_a_sink(name: Text)
    ensures
        name == "getForObject"@ || name == "getForEntity"@ || name == "postForObject"@ || name
            == "postForEntity"@ || name == "exchange"@ ==> lists_method(ssrf_rule().sinks, name),
        lists(ssrf_rule().sinks, "URL"@),
{
    let sinks = ssrf_rule().sinks;
    assert(sinks[0] matches Matcher::Call { canonical, .. } && canonical == "URL"@);
    assert(sinks[2] matches Matcher::MethodName { method, .. } && method == "getForObject"@);
    assert(sinks[3] matches Matcher::MethodName { method, .. } && method == "getForEntity"@);
    assert(sinks[4] matches Matcher::MethodName { method, .. } && method == "postForObject"@);
    assert(sinks[5] matches Matcher::MethodName { method, .. } && method == "postForEntity"@);
    assert(sinks[6] matches Matcher::MethodName { method, .. } && method == "exchange"@);
}

/// Every function of C that fills its arguments is a source, every one that prints by a format
/// is a sink of formats, and every one that runs its first argument is a sink of commands.
pub proof fn what_c_functions_do_is_listed(callee: Text, k: int)
    ensures
        is_filled(callee, k) ==> lists(c_sources(), callee),
        callee == "printf"@ || callee == "fprintf"@ || callee == "syslog"@ ==> lists(
            crate::c_taint::format_string_rule().sinks,
            callee,
        ),
        runs_its_first_argument(callee) ==> lists(
            crate::c_taint::command_injection_rule().sinks,
            callee,
        ),
{
    let sources = c_sources();
    assert(sources[0]->canonical == "read"@ && sources[1]->canonical == "recv"@);
    assert(sources[2]->canonical == "recvfrom"@ && sources[3]->canonical == "recvmsg"@);
    assert(sources[4]->canonical == "fgets"@ && sources[5]->canonical == "fread"@);
    assert(sources[9]->canonical == "scanf"@ && sources[10]->canonical == "fscanf"@);
    let formats = crate::c_taint::format_string_rule().sinks;
    assert(formats[0]->canonical == "printf"@ && formats[1]->canonical == "fprintf"@);
    assert(formats[2]->canonical == "syslog"@);
    let commands = crate::c_taint::command_injection_rule().sinks;
    assert(commands[2]->canonical == "execl"@ && commands[3]->canonical == "execlp"@);
    assert(commands[4]->canonical == "execle"@ && commands[5]->canonical == "execv"@);
    assert(commands[6]->canonical == "execvp"@ && commands[7]->canonical == "execve"@);
}

} // verus!
