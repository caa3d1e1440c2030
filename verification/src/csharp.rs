//! Rules for C#.
use crate::common::{
    csharp_hardcoded_secret_re, found_in, is_secret_value_long_enough, passes, said_if,
    said_of_node, say_if, say_of_node, walk_tree, walked, SecretScanThresholds, Thresholds, Visitor,
    CSHARP_HARDCODED_SECRET_PATTERN,
};
use crate::context::FileContext;
use crate::finding::{Finding, Language, Report, RuleFacts, RuleInfo, Severity};
use crate::pattern::{is_regex_match, regex_matches};
use crate::text::{
    before_first, begins_with, chars_of, chars_occur_at, concat2, concat3, contains, ends_with,
    finishes_with, first_segment, has_part, last_segment, lowered, occurs_at, opt_view, past_last,
    starts_with, text_eq, text_is, to_ascii_lowercase, trim, trim_chars, trim_start, trimmed,
    trimmed_of, trimmed_start, views, Text,
};
use crate::tree::{gap, indices, is_node, Node, SyntaxTree};
use vstd::prelude::*;
use vstd::string::*;

verus! {

broadcast use {crate::text::group_views, crate::tree::group_tree};

// ─── Strings and their declarations ──────────────────────────────────────────
/// Whether a node of this kind is a string literal.
pub open spec fn is_string(kind: Text) -> bool {
    ||| kind == "string_literal"@
    ||| kind == "verbatim_string_literal"@
    ||| kind == "interpolated_string_expression"@
    ||| kind == "string_literal_expression"@
}

fn is_string_literal(node: Node<'_>) -> (r: bool)
    requires
        node.wf(),
    ensures
        r == is_string(node.tree.kind(node.index as int)),
{
    node.is_kind("string_literal") || node.is_kind("verbatim_string_literal") || node.is_kind(
        "interpolated_string_expression",
    ) || node.is_kind("string_literal_expression")
}

/// Whether node `i` is a sum.
pub open spec fn is_sum(t: &SyntaxTree, i: int, src: Text) -> bool {
    t.kind(i) == "binary_expression"@ && t.field_text(i, "operator"@, src) == Some("+"@)
}

fn is_sum_node(node: Node<'_>, source: &str) -> (r: bool)
    requires
        node.valid(source@),
    ensures
        r == is_sum(node.tree, node.index as int, source@),
{
    node.is_kind("binary_expression") && text_is(node.field_text("operator", source), "+")
}

/// The operands of the sum at node `i`, those of nested sums in their place.
pub open spec fn operands(t: &SyntaxTree, i: int, src: Text) -> Seq<int>
    decreases gap(i, t.len()),
{
    if 0 <= i < t.len() && is_sum(t, i, src) {
        match (t.field(i, "left"@), t.field(i, "right"@)) {
            (Some(l), Some(r)) => operands(t, l, src) + operands(t, r, src),
            _ => seq![i],
        }
    } else {
        seq![i]
    }
}

fn collect_concat_operands<'a>(node: Node<'a>, source: &str, out: &mut Vec<Node<'a>>)
    requires
        node.valid(source@),
        forall|k: int|
            #![trigger old(out)@[k]]
            0 <= k < old(out)@.len() ==> old(out)@[k].tree == node.tree && old(out)@[k].wf(),
    ensures
        indices(final(out)@) == indices(old(out)@) + operands(
            node.tree,
            node.index as int,
            source@,
        ),
        forall|k: int|
            #![trigger final(out)@[k]]
            0 <= k < final(out)@.len() ==> final(out)@[k].tree == node.tree && final(out)@[k].wf(),
    decreases node.tree.len() - node.index,
{
    if is_sum_node(node, source) {
        match (node.child_by_field_name("left"), node.child_by_field_name("right")) {
            (Some(l), Some(r)) => {
                collect_concat_operands(l, source, out);
                collect_concat_operands(r, source, out);
                assert(indices(out@) =~= indices(old(out)@) + operands(
                    node.tree,
                    node.index as int,
                    source@,
                ));
                return;
            },
            _ => {},
        }
    }
    out.push(node);
    assert(indices(out@) =~= indices(old(out)@) + seq![node.index as int]);
}

/// Whether node `i` declares a variable with this name.
pub open spec fn declares(t: &SyntaxTree, i: int, name: Text, src: Text) -> bool {
    t.kind(i) == "variable_declarator"@ && t.field_text(i, "name"@, src) == Some(name)
}

/// The declarations of a name among the nodes from `c` to before `e`.
pub open spec fn declarations(t: &SyntaxTree, c: int, e: int, name: Text, src: Text) -> Seq<int>
    decreases gap(c, e),
{
    if c >= e {
        Seq::empty()
    } else if declares(t, c, name, src) {
        seq![c] + declarations(t, c + 1, e, name, src)
    } else {
        declarations(t, c + 1, e, name, src)
    }
}

fn collect_declarators_named<'a>(node: Node<'a>, name: &str, source: &str) -> (out: Vec<Node<'a>>)
    requires
        node.valid(source@),
    ensures
        indices(out@) == declarations(
            node.tree,
            node.index as int,
            node.tree.after(node.index as int),
            name@,
            source@,
        ),
        forall|k: int|
            #![trigger out@[k]]
            0 <= k < out@.len() ==> out@[k].tree == node.tree && out@[k].wf(),
{
    let e: usize = node.end();
    let mut c: usize = node.index;
    let mut out: Vec<Node<'a>> = Vec::new();
    let ghost all = declarations(node.tree, c as int, e as int, name@, source@);
    assert(indices(out@) + all =~= all);
    while c < e
        invariant
            node.valid(source@),
            e <= node.tree.len(),
            indices(out@) + declarations(node.tree, c as int, e as int, name@, source@) == all,
            forall|k: int|
                #![trigger out@[k]]
                0 <= k < out@.len() ==> out@[k].tree == node.tree && out@[k].wf(),
        decreases gap(c as int, e as int),
    {
        let n = node.at(c);
        if n.is_kind("variable_declarator") && text_is(n.field_text("name", source), name) {
            let ghost before = indices(out@);
            out.push(n);
            proof {
                let rest = declarations(node.tree, c + 1, e as int, name@, source@);
                assert(indices(out@) =~= before.push(c as int));
                assert(before.push(c as int) + rest =~= before + (seq![c as int] + rest));
            }
        }
        c = c + 1;
    }
    assert(indices(out@) + Seq::<int>::empty() =~= indices(out@));
    out
}

/// Whether names are declared in a node of this kind.
pub open spec fn is_scope_kind(kind: Text) -> bool {
    ||| kind == "block"@
    ||| kind == "method_declaration"@
    ||| kind == "constructor_declaration"@
    ||| kind == "accessor_declaration"@
    ||| kind == "local_function_statement"@
}

fn is_scope(node: Node<'_>) -> (r: bool)
    requires
        node.wf(),
    ensures
        r == is_scope_kind(node.tree.kind(node.index as int)),
{
    node.is_kind("block") || node.is_kind("method_declaration") || node.is_kind(
        "constructor_declaration",
    ) || node.is_kind("accessor_declaration") || node.is_kind("local_function_statement")
}

/// The innermost scope around node `i`; the outermost node where there is none.
pub open spec fn scope_around(t: &SyntaxTree, i: int) -> int
    decreases i,
{
    match t.parent(i) {
        Some(p) => if !(0 <= p < i) {
            i
        } else if is_scope_kind(t.kind(p)) {
            p
        } else {
            scope_around(t, p)
        },
        None => i,
    }
}

fn enclosing_scope<'a>(node: Node<'a>) -> (r: Node<'a>)
    requires
        node.wf(),
    ensures
        r.tree == node.tree,
        r.wf(),
        r.index == scope_around(node.tree, node.index as int),
    decreases node.index,
{
    match node.parent() {
        Some(p) => if is_scope(p) {
            p
        } else {
            enclosing_scope(p)
        },
        None => node,
    }
}

/// The declaration that a name at node `i` refers to: the only one in the scope around it
/// or, where that has none, the only one of the file.
pub open spec fn declaration_of(t: &SyntaxTree, i: int, name: Text, src: Text) -> Option<int> {
    let scope = scope_around(t, i);
    let local = declarations(t, scope, t.after(scope), name, src);
    let global = declarations(t, 0, t.after(0), name, src);
    if local.len() == 1 {
        Some(local[0])
    } else if local.len() == 0 && global.len() == 1 {
        Some(global[0])
    } else {
        None
    }
}

fn resolve_single_declarator<'a>(name: &str, use_site: Node<'a>, source: &str) -> (r: Option<
    Node<'a>,
>)
    requires
        use_site.valid(source@),
    ensures
        is_node(
            r,
            use_site.tree,
            declaration_of(use_site.tree, use_site.index as int, name@, source@),
        ),
        r matches Some(n) ==> n.wf(),
{
    let local = collect_declarators_named(enclosing_scope(use_site), name, source);
    let ghost found = indices(local@);
    if local.len() == 1 {
        assert(found[0] == local@[0].index);
        return Some(local[0]);
    }
    if local.len() > 0 {
        return None;
    }
    let global = collect_declarators_named(use_site.at(0), name, source);
    let ghost all = indices(global@);
    if global.len() == 1 {
        assert(all[0] == global@[0].index);
        Some(global[0])
    } else {
        None
    }
}

/// The initializer of a declaration after its children from `c` on, `init` being what is
/// known before.
pub open spec fn initializer_from(t: &SyntaxTree, c: int, e: int, init: Option<int>) -> Option<int>
    decreases gap(c, e),
{
    if c >= e {
        init
    } else {
        initializer_from(
            t,
            t.after(c),
            e,
            if t.kind(c) == "equals_value_clause"@ {
                t.nth_named(c, 0)
            } else if t.kind(c) == "identifier"@ || t.kind(c) == "="@ {
                init
            } else if init is None && t.named(c) {
                Some(c)
            } else {
                init
            },
        )
    }
}

/// The initializer of the declaration at node `i`.
pub open spec fn initializer(t: &SyntaxTree, i: int) -> Option<int> {
    initializer_from(t, i + 1, t.after(i), None)
}

fn declarator_initializer<'a>(decl: Node<'a>) -> (init: Option<Node<'a>>)
    requires
        decl.wf(),
    ensures
        is_node(init, decl.tree, initializer(decl.tree, decl.index as int)),
        init matches Some(n) ==> n.wf(),
{
    let ghost t = decl.tree;
    let e: usize = decl.end();
    let mut c: usize = decl.index + 1;
    let mut init: Option<Node<'a>> = None;
    let ghost mut known: Option<int> = None;
    proof {
        reveal_strlit("equals_value_clause");
        reveal_strlit("identifier");
        reveal_strlit("=");
    }
    while c < e
        invariant
            decl.wf(),
            t == decl.tree,
            e <= t.len(),
            is_node(init, t, known),
            init matches Some(n) ==> n.wf(),
            initializer(t, decl.index as int) == initializer_from(t, c as int, e as int, known),
        decreases gap(c as int, e as int),
    {
        let child = decl.at(c);
        if child.is_kind("equals_value_clause") {
            init = child.named_child(0);
            proof {
                known = t.nth_named(c as int, 0);
            }
        } else if child.is_kind("identifier") || child.is_kind("=") {
        } else if init.is_none() && child.is_named() {
            init = Some(child);
            proof {
                known = Some(c as int);
            }
        }
        c = child.end();
    }
    init
}

/// Whether one of the siblings `c`, `after(c)`, ... before `e` is the modifier `const`.
pub open spec fn const_among(t: &SyntaxTree, c: int, e: int, src: Text) -> bool
    decreases gap(c, e),
{
    if c >= e {
        false
    } else {
        (t.kind(c) == "modifier"@ && t.text(c, src) == "const"@) || const_among(
            t,
            t.after(c),
            e,
            src,
        )
    }
}

/// Whether the declaration at node `i` is one of a constant.
pub open spec fn is_const(t: &SyntaxTree, i: int, src: Text) -> bool {
    &&& t.parent(i) matches Some(p)
    &&& t.kind(p) == "variable_declaration"@
    &&& t.parent(p) matches Some(g)
    &&& const_among(t, g + 1, t.after(g), src)
}

fn has_const_modifier(node: Node<'_>, source: &str) -> (r: bool)
    requires
        node.valid(source@),
    ensures
        r == const_among(
            node.tree,
            node.index + 1,
            node.tree.after(node.index as int),
            source@,
        ),
{
    let e: usize = node.end();
    let mut c: usize = node.index + 1;
    while c < e
        invariant
            node.valid(source@),
            e == node.tree.after(node.index as int),
            e <= node.tree.len(),
            const_among(node.tree, node.index + 1, e as int, source@) == const_among(
                node.tree,
                c as int,
                e as int,
                source@,
            ),
        decreases gap(c as int, e as int),
    {
        let n = node.at(c);
        if n.is_kind("modifier") && text_eq(n.text(source), "const") {
            return true;
        }
        c = n.end();
    }
    false
}

fn is_const_declarator(decl: Node<'_>, source: &str) -> (r: bool)
    requires
        decl.valid(source@),
    ensures
        r == is_const(decl.tree, decl.index as int, source@),
{
    match decl.parent() {
        Some(p) => p.is_kind("variable_declaration") && match p.parent() {
            Some(g) => has_const_modifier(g, source),
            None => false,
        },
        None => false,
    }
}

/// Whether the name at node `i` refers to a constant or to a declaration with a string
/// literal.
pub open spec fn is_constant(t: &SyntaxTree, i: int, name: Text, src: Text) -> bool {
    &&& declaration_of(t, i, name, src) matches Some(d)
    &&& is_const(t, d, src) || (initializer(t, d) matches Some(k) && is_string(t.kind(k)))
}

fn identifier_is_const_string(name: &str, use_site: Node<'_>, source: &str) -> (r: bool)
    requires
        use_site.valid(source@),
    ensures
        r == is_constant(use_site.tree, use_site.index as int, name@, source@),
{
    match resolve_single_declarator(name, use_site, source) {
        Some(d) => is_const_declarator(d, source) || match declarator_initializer(d) {
            Some(k) => is_string_literal(k),
            None => false,
        },
        None => false,
    }
}

/// What stands in the parentheses around node `i`, if any.
pub open spec fn unwrapped(t: &SyntaxTree, i: int) -> int
    decreases gap(i, t.len()),
{
    if 0 <= i < t.len() && t.kind(i) == "parenthesized_expression"@ {
        match t.nth_named(i, 0) {
            Some(k) => unwrapped(t, k),
            None => i,
        }
    } else {
        i
    }
}

fn unwrap_parentheses<'a>(node: Node<'a>) -> (r: Node<'a>)
    requires
        node.wf(),
    ensures
        r.tree == node.tree,
        r.wf(),
        r.index == unwrapped(node.tree, node.index as int),
    decreases node.tree.len() - node.index,
{
    if node.is_kind("parenthesized_expression") {
        match node.named_child(0) {
            Some(k) => unwrap_parentheses(k),
            None => node,
        }
    } else {
        node
    }
}

/// Whether node `i` is a string that never changes: a literal, or the name of one.
pub open spec fn is_fixed(t: &SyntaxTree, i: int, src: Text) -> bool {
    let n = unwrapped(t, i);
    is_string(t.kind(n)) || (t.kind(n) == "identifier"@ && is_constant(t, n, t.text(n, src), src))
}

fn is_literal_operand(node: Node<'_>, source: &str) -> (r: bool)
    requires
        node.valid(source@),
    ensures
        r == is_fixed(node.tree, node.index as int, source@),
{
    let n = unwrap_parentheses(node);
    is_string_literal(n) || (n.is_kind("identifier") && identifier_is_const_string(
        n.text(source),
        n,
        source,
    ))
}

/// Whether node `i` is a sum with an operand that may change.
pub open spec fn is_open_sum(t: &SyntaxTree, i: int, src: Text) -> bool {
    is_sum(t, i, src) && exists|k: int|
        #![trigger operands(t, i, src)[k]]
        0 <= k < operands(t, i, src).len() && !is_fixed(t, operands(t, i, src)[k], src)
}

fn is_open_sum_node(node: Node<'_>, source: &str) -> (r: bool)
    requires
        node.valid(source@),
    ensures
        r == is_open_sum(node.tree, node.index as int, source@),
{
    if !is_sum_node(node, source) {
        return false;
    }
    let mut parts: Vec<Node<'_>> = Vec::new();
    collect_concat_operands(node, source, &mut parts);
    let ghost all = operands(node.tree, node.index as int, source@);
    assert(indices(parts@) =~= all);
    let mut k: usize = 0;
    while k < parts.len()
        invariant
            node.valid(source@),
            k <= parts@.len(),
            indices(parts@) == all,
            all == operands(node.tree, node.index as int, source@),
            is_sum(node.tree, node.index as int, source@),
            forall|j: int|
                #![trigger parts@[j]]
                0 <= j < parts@.len() ==> parts@[j].tree == node.tree && parts@[j].wf(),
            forall|j: int| #![trigger all[j]] 0 <= j < k ==> is_fixed(node.tree, all[j], source@),
        decreases parts.len() - k,
    {
        assert(all[k as int] == parts@[k as int].index);
        if !is_literal_operand(parts[k], source) {
            return true;
        }
        k = k + 1;
    }
    false
}

/// Whether a sum with an operand that may change stands in the subtree of node `i`.
pub open spec fn is_built(t: &SyntaxTree, i: int, src: Text) -> bool {
    exists|k: int| i <= k < t.after(i) && #[trigger] is_open_sum(t, k, src)
}

fn is_tainting_string_concat(node: Node<'_>, source: &str) -> (r: bool)
    requires
        node.valid(source@),
    ensures
        r == is_built(node.tree, node.index as int, source@),
{
    let e: usize = node.end();
    let mut c: usize = node.index;
    while c < e
        invariant
            node.valid(source@),
            node.index <= c <= e <= node.tree.len(),
            e == node.tree.after(node.index as int),
            forall|k: int|
                node.index <= k < c ==> !#[trigger] is_open_sum(node.tree, k, source@),
        decreases e - c,
    {
        if is_open_sum_node(node.at(c), source) {
            assert(is_open_sum(node.tree, c as int, source@));
            return true;
        }
        c = c + 1;
    }
    false
}

// ─── Safe arguments ──────────────────────────────────────────────────────────
/// Whether an expression calls a method that makes its result safe, going by its name.
pub open spec fn is_sanitizing(text: Text) -> bool {
    let s = trimmed(text);
    let method = lowered(trimmed(last_segment(first_segment(s, '('), '.')));
    &&& has_part(s, "("@)
    &&& begins_with(method, "validate"@) || begins_with(method, "sanitize"@) || begins_with(
        method,
        "allowlist"@,
    )
}

fn is_sanitizer_call_text(text: &str) -> (r: bool)
    ensures
        r == is_sanitizing(text@),
{
    let s = trim(text);
    if !contains(s, "(") {
        return false;
    }
    let lower = to_ascii_lowercase(trim(past_last(before_first(s, '('), '.')));
    let method = lower.as_str();
    starts_with(method, "validate") || starts_with(method, "sanitize") || starts_with(
        method,
        "allowlist",
    )
}

/// Whether an expression begins with a call that builds a path safely.
pub open spec fn is_path_call(text: Text) -> bool {
    let callee = trimmed(first_segment(text, '('));
    &&& has_part(text, "("@)
    &&& callee == "Path.Combine"@ || callee == "Path.GetFullPath"@ || callee == "Path.Join"@
}

fn is_safe_path_call_text(text: &str) -> (r: bool)
    ensures
        r == is_path_call(text@),
{
    if !contains(text, "(") {
        return false;
    }
    let callee = trim(before_first(text, '('));
    text_eq(callee, "Path.Combine") || text_eq(callee, "Path.GetFullPath") || text_eq(
        callee,
        "Path.Join",
    )
}

/// What the parentheses around node `i` hold, if they all hold something.
pub open spec fn inside(t: &SyntaxTree, i: int) -> Option<int>
    decreases gap(i, t.len()),
{
    if 0 <= i < t.len() && t.kind(i) == "parenthesized_expression"@ {
        match t.nth_named(i, 0) {
            Some(k) => inside(t, k),
            None => None,
        }
    } else {
        Some(i)
    }
}

fn inside_parentheses<'a>(node: Node<'a>) -> (r: Option<Node<'a>>)
    requires
        node.wf(),
    ensures
        is_node(r, node.tree, inside(node.tree, node.index as int)),
        r matches Some(n) ==> n.wf(),
    decreases node.tree.len() - node.index,
{
    if node.is_kind("parenthesized_expression") {
        match node.named_child(0) {
            Some(k) => inside_parentheses(k),
            None => None,
        }
    } else {
        Some(node)
    }
}

/// The name that the argument at node `i` is.
pub open spec fn argument_name(t: &SyntaxTree, i: int, src: Text) -> Option<Text> {
    let start = if t.kind(i) == "argument"@ {
        t.nth_named(i, 0)
    } else {
        Some(i)
    };
    match start {
        Some(s) => match inside(t, s) {
            Some(n) => if t.kind(n) == "identifier"@ {
                Some(t.text(n, src))
            } else {
                None
            },
            None => None,
        },
        None => None,
    }
}

fn argument_identifier_name<'s>(arg: Node<'_>, source: &'s str) -> (r: Option<&'s str>)
    requires
        arg.valid(source@),
    ensures
        opt_view(r) == argument_name(arg.tree, arg.index as int, source@),
{
    let start = if arg.is_kind("argument") {
        match arg.named_child(0) {
            Some(n) => n,
            None => {
                return None;
            },
        }
    } else {
        arg
    };
    match inside_parentheses(start) {
        Some(n) => if n.is_kind("identifier") {
            Some(n.text(source))
        } else {
            None
        },
        None => None,
    }
}

/// Whether the name at node `i` refers to a declaration whose value is safe.
pub open spec fn is_safe_name(t: &SyntaxTree, i: int, name: Text, src: Text) -> bool {
    &&& declaration_of(t, i, name, src) matches Some(d)
    &&& is_const(t, d, src) || (initializer(t, d) matches Some(k) && (is_string(t.kind(k))
        || is_path_call(t.text(k, src)) || is_sanitizing(t.text(k, src))))
}

fn identifier_is_safe(name: &str, use_site: Node<'_>, source: &str) -> (r: bool)
    requires
        use_site.valid(source@),
    ensures
        r == is_safe_name(use_site.tree, use_site.index as int, name@, source@),
{
    match resolve_single_declarator(name, use_site, source) {
        Some(d) => is_const_declarator(d, source) || match declarator_initializer(d) {
            Some(k) => is_string_literal(k) || is_safe_path_call_text(k.text(source))
                || is_sanitizer_call_text(k.text(source)),
            None => false,
        },
        None => false,
    }
}

/// Whether the argument at node `i` is safe for a command, a path or an address.
pub open spec fn is_safe(t: &SyntaxTree, i: int, src: Text) -> bool {
    let inner = match t.nth_named(i, 0) {
        Some(k) => if t.kind(i) == "argument"@ {
            k
        } else {
            i
        },
        None => i,
    };
    let text = t.text(inner, src);
    ||| is_string(t.kind(inner))
    ||| begins_with(text, "\""@)
    ||| begins_with(text, "@\""@)
    ||| begins_with(text, "$\""@)
    ||| is_path_call(text)
    ||| is_sanitizing(text)
    ||| argument_name(t, i, src) matches Some(name) && is_safe_name(t, i, name, src)
}

fn sink_argument_is_safe(arg: Node<'_>, source: &str) -> (r: bool)
    requires
        arg.valid(source@),
    ensures
        r == is_safe(arg.tree, arg.index as int, source@),
{
    let inner = if arg.is_kind("argument") {
        match arg.named_child(0) {
            Some(k) => k,
            None => arg,
        }
    } else {
        arg
    };
    if is_string_literal(inner) {
        return true;
    }
    let text = inner.text(source);
    if starts_with(text, "\"") || starts_with(text, "@\"") || starts_with(text, "$\"") {
        return true;
    }
    if is_safe_path_call_text(text) || is_sanitizer_call_text(text) {
        return true;
    }
    match argument_identifier_name(arg, source) {
        Some(name) => identifier_is_safe(name, arg, source),
        None => false,
    }
}

/// Whether the list at node `i` holds an argument that is not safe.
pub open spec fn has_unsafe(t: &SyntaxTree, i: int, src: Text) -> bool {
    exists|k: int|
        #![trigger t.named_children(i)[k]]
        0 <= k < t.named_children(i).len() && !is_safe(t, t.named_children(i)[k], src)
}

fn has_unsafe_argument(list: Node<'_>, source: &str) -> (r: bool)
    requires
        list.valid(source@),
    ensures
        r == has_unsafe(list.tree, list.index as int, source@),
{
    let args = list.named_children();
    let ghost all = list.tree.named_children(list.index as int);
    let mut k: usize = 0;
    while k < args.len()
        invariant
            list.valid(source@),
            k <= args@.len(),
            indices(args@) == all,
            all == list.tree.named_children(list.index as int),
            forall|j: int|
                #![trigger args@[j]]
                0 <= j < args@.len() ==> args@[j].tree == list.tree && args@[j].wf(),
            forall|j: int| #![trigger all[j]] 0 <= j < k ==> is_safe(list.tree, all[j], source@),
        decreases args.len() - k,
    {
        assert(all[k as int] == args@[k as int].index);
        if !sink_argument_is_safe(args[k], source) {
            return true;
        }
        k = k + 1;
    }
    false
}

/// Whether the first argument of the list at node `i` is not safe.
pub open spec fn first_is_unsafe(t: &SyntaxTree, i: int, src: Text) -> bool {
    t.nth_named(i, 0) matches Some(a) && !is_safe(t, a, src)
}

fn has_unsafe_first(list: Node<'_>, source: &str) -> (r: bool)
    requires
        list.valid(source@),
    ensures
        r == first_is_unsafe(list.tree, list.index as int, source@),
{
    match list.named_child(0) {
        Some(a) => !sink_argument_is_safe(a, source),
        None => false,
    }
}

/// What is asked of a list of arguments.
pub trait ListTest {
    spec fn holds(t: &SyntaxTree, i: int, src: Text) -> bool;

    fn test(list: Node<'_>, source: &str) -> (r: bool)
        requires
            list.valid(source@),
        ensures
            r == Self::holds(list.tree, list.index as int, source@),
    ;
}

/// An argument is not safe.
pub struct AnyUnsafe;

impl ListTest for AnyUnsafe {
    open spec fn holds(t: &SyntaxTree, i: int, src: Text) -> bool {
        has_unsafe(t, i, src)
    }

    fn test(list: Node<'_>, source: &str) -> (r: bool) {
        has_unsafe_argument(list, source)
    }
}

/// The first argument is not safe.
pub struct FirstUnsafe;

impl ListTest for FirstUnsafe {
    open spec fn holds(t: &SyntaxTree, i: int, src: Text) -> bool {
        first_is_unsafe(t, i, src)
    }

    fn test(list: Node<'_>, source: &str) -> (r: bool) {
        has_unsafe_first(list, source)
    }
}

/// A string is put together in the list.
pub struct Built;

impl ListTest for Built {
    open spec fn holds(t: &SyntaxTree, i: int, src: Text) -> bool {
        is_built(t, i, src)
    }

    fn test(list: Node<'_>, source: &str) -> (r: bool) {
        is_tainting_string_concat(list, source)
    }
}

/// How many of the siblings from `c` on are lists of arguments that pass the test.
pub open spec fn lists_passing<L: ListTest>(t: &SyntaxTree, c: int, e: int, src: Text) -> nat
    decreases gap(c, e),
{
    if c >= e {
        0
    } else {
        lists_passing::<L>(t, t.after(c), e, src) + if t.kind(c) == "argument_list"@ && L::holds(
            t,
            c,
            src,
        ) {
            1nat
        } else {
            0nat
        }
    }
}

/// How many children of node `i` are lists of arguments that pass the test.
pub open spec fn passing_lists<L: ListTest>(t: &SyntaxTree, i: int, src: Text) -> nat {
    lists_passing::<L>(t, i + 1, t.after(i), src)
}

fn count_passing_lists<L: ListTest>(node: Node<'_>, source: &str) -> (r: usize)
    requires
        node.valid(source@),
    ensures
        r == passing_lists::<L>(node.tree, node.index as int, source@),
{
    let ghost t = node.tree;
    let e: usize = node.end();
    let mut c: usize = node.index + 1;
    let mut n: usize = 0;
    while c < e
        invariant
            node.valid(source@),
            t == node.tree,
            node.index < c,
            e <= t.len(),
            n < c,
            n + lists_passing::<L>(t, c as int, e as int, source@) == passing_lists::<L>(
                t,
                node.index as int,
                source@,
            ),
            e == t.after(node.index as int),
        decreases gap(c as int, e as int),
    {
        let child = node.at(c);
        if child.is_kind("argument_list") && L::test(child, source) {
            n = n + 1;
        }
        c = child.end();
    }
    n
}

/// Whether a text holds one of the parts.
pub open spec fn has_some_part(s: Text, parts: Seq<Text>) -> bool {
    exists|k: int| 0 <= k < parts.len() && has_part(s, #[trigger] parts[k])
}

fn contains_some(s: &str, parts: &[&str]) -> (r: bool)
    ensures
        r == has_some_part(s@, views(parts@)),
{
    let mut k: usize = 0;
    while k < parts.len()
        invariant
            k <= parts@.len(),
            forall|j: int| 0 <= j < k ==> !has_part(s@, #[trigger] views(parts@)[j]),
        decreases parts.len() - k,
    {
        assert(views(parts@)[k as int] == parts@[k as int]@);
        if contains(s, parts[k]) {
            return true;
        }
        k = k + 1;
    }
    false
}

/// Potential SQL injection via string concatenation in database call.
#[derive(Debug, Clone, Copy)]
pub struct NoSqlInjection;

impl NoSqlInjection {
    /// What the rule says of itself.
    pub open spec fn facts() -> RuleFacts {
        RuleFacts {
            id: "cs/no-sql-injection"@,
            severity: Severity::Critical,
            cwe: Some("CWE-89"@),
            description: "Potential SQL injection via string concatenation in database call"@,
            language: Language::CSharp,
            cnsa2_deadline: None,
        }
    }

    /// What the rule says of itself.
    pub fn info(&self) -> (r: RuleInfo)
        ensures
            r@ == Self::facts(),
    {
        RuleInfo {
            id: "cs/no-sql-injection",
            severity: Severity::Critical,
            cwe: Some("CWE-89"),
            description: "Potential SQL injection via string concatenation in database call",
            language: Language::CSharp,
            cnsa2_deadline: None,
        }
    }

    /// The findings of the rule in a file.
    pub fn check(&self, source: &str, tree: &SyntaxTree) -> (out: Vec<Finding>)
        requires
            tree.valid(source@),
            tree.len() > 0,
        ensures
            views(out@) == found_in::<Self>((), tree, source@),
    {
        walk_tree::<Self>(&(), tree.root_node(), source)
    }
}

/// The methods that run a query.
pub open spec fn sql_methods() -> Seq<Text> {
    seq!["ExecuteReader"@, "ExecuteNonQuery"@, "ExecuteScalar"@, "FromSqlRaw"@]
}

/// The same report `n` times over.
pub open spec fn repeated(n: nat, r: Report) -> Seq<Report> {
    Seq::new(n, |k: int| r)
}

impl Visitor for NoSqlInjection {
    type Data = ();

    type Found = Finding;

    open spec fn found(d: (), t: &SyntaxTree, i: int, src: Text) -> Seq<Report> {
        let report = said_of_node(
            Self::facts(),
            "SQL query built with string concatenation — use parameterized queries"@,
            t,
            i,
            src,
        );
        if t.kind(i) == "invocation_expression"@ && has_some_part(t.text(i, src), sql_methods()) {
            match t.field(i, "arguments"@) {
                Some(a) => if is_built(t, a, src) {
                    seq![report]
                } else {
                    Seq::empty()
                },
                None => repeated(passing_lists::<Built>(t, i, src), report),
            }
        } else {
            Seq::empty()
        }
    }

    fn visit(_data: &(), node: Node<'_>, source: &str, out: &mut Vec<Finding>) {
        let info = NoSqlInjection.info();
        let methods = ["ExecuteReader", "ExecuteNonQuery", "ExecuteScalar", "FromSqlRaw"];
        assert(views(methods@) =~= sql_methods());
        let ghost before = views(out@);
        let ghost all = Self::found((), node.tree, node.index as int, source@);
        let ghost report = said_of_node(
            Self::facts(),
            "SQL query built with string concatenation — use parameterized queries"@,
            node.tree,
            node.index as int,
            source@,
        );
        let count: usize = if node.is_kind("invocation_expression") && contains_some(
            node.text(source),
            &methods,
        ) {
            match node.child_by_field_name("arguments") {
                Some(a) => if is_tainting_string_concat(a, source) {
                    1
                } else {
                    0
                },
                None => count_passing_lists::<Built>(node, source),
            }
        } else {
            0
        };
        assert(all =~= repeated(count as nat, report));
        assert(before + repeated(0, report) =~= before);
        let mut k: usize = 0;
        while k < count
            invariant
                k <= count,
                node.valid(source@),
                info@ == Self::facts(),
                report == said_of_node(
                    Self::facts(),
                    "SQL query built with string concatenation — use parameterized queries"@,
                    node.tree,
                    node.index as int,
                    source@,
                ),
                views(out@) == before + repeated(k as nat, report),
            decreases count - k,
        {
            out.push(
                say_of_node(
                    &info,
                    "SQL query built with string concatenation — use parameterized queries",
                    node,
                    source,
                ),
            );
            assert(before + repeated((k + 1) as nat, report) =~= (before + repeated(
                k as nat,
                report,
            )).push(report));
            k = k + 1;
        }
    }
}

/// Potential command injection via Process.Start with dynamic argument.
#[derive(Debug, Clone, Copy)]
pub struct NoCommandInjection;

impl NoCommandInjection {
    /// What the rule says of itself.
    pub open spec fn facts() -> RuleFacts {
        RuleFacts {
            id: "cs/no-command-injection"@,
            severity: Severity::Critical,
            cwe: Some("CWE-78"@),
            description: "Potential command injection via Process.Start with dynamic argument"@,
            language: Language::CSharp,
            cnsa2_deadline: None,
        }
    }

    /// What the rule says of itself.
    pub fn info(&self) -> (r: RuleInfo)
        ensures
            r@ == Self::facts(),
    {
        RuleInfo {
            id: "cs/no-command-injection",
            severity: Severity::Critical,
            cwe: Some("CWE-78"),
            description: "Potential command injection via Process.Start with dynamic argument",
            language: Language::CSharp,
            cnsa2_deadline: None,
        }
    }

    /// The findings of the rule in a file.
    pub fn check(&self, source: &str, tree: &SyntaxTree) -> (out: Vec<Finding>)
        requires
            tree.valid(source@),
            tree.len() > 0,
        ensures
            views(out@) == found_in::<Self>((), tree, source@),
    {
        walk_tree::<Self>(&(), tree.root_node(), source)
    }
}

impl Visitor for NoCommandInjection {
    type Data = ();

    type Found = Finding;

    open spec fn found(d: (), t: &SyntaxTree, i: int, src: Text) -> Seq<Report> {
        said_if(
            t.kind(i) == "invocation_expression"@ && has_part(t.text(i, src), "Process.Start"@)
                && passing_lists::<AnyUnsafe>(t, i, src) > 0,
            Self::facts(),
            "Process.Start called with dynamic argument — risk of command injection"@,
            t,
            i,
            src,
        )
    }

    fn visit(_data: &(), node: Node<'_>, source: &str, out: &mut Vec<Finding>) {
        let hit = node.is_kind("invocation_expression") && contains(
            node.text(source),
            "Process.Start",
        ) && count_passing_lists::<AnyUnsafe>(node, source) > 0;
        say_if(
            hit,
            &NoCommandInjection.info(),
            "Process.Start called with dynamic argument — risk of command injection",
            node,
            source,
            out,
        );
    }
}

/// Use of unsafe deserialization API.
#[derive(Debug, Clone, Copy)]
pub struct NoUnsafeDeserialization;

impl NoUnsafeDeserialization {
    /// What the rule says of itself.
    pub open spec fn facts() -> RuleFacts {
        RuleFacts {
            id: "cs/no-unsafe-deserialization"@,
            severity: Severity::Critical,
            cwe: Some("CWE-502"@),
            description: "Use of unsafe deserialization API"@,
            language: Language::CSharp,
            cnsa2_deadline: None,
        }
    }

    /// What the rule says of itself.
    pub fn info(&self) -> (r: RuleInfo)
        ensures
            r@ == Self::facts(),
    {
        RuleInfo {
            id: "cs/no-unsafe-deserialization",
            severity: Severity::Critical,
            cwe: Some("CWE-502"),
            description: "Use of unsafe deserialization API",
            language: Language::CSharp,
            cnsa2_deadline: None,
        }
    }

    /// The findings of the rule in a file.
    pub fn check(&self, source: &str, tree: &SyntaxTree) -> (out: Vec<Finding>)
        requires
            tree.valid(source@),
            tree.len() > 0,
        ensures
            views(out@) == found_in::<Self>((), tree, source@),
    {
        walk_tree::<Self>(&(), tree.root_node(), source)
    }
}

/// Whether node `i` reads objects with a class that makes any type.
pub open spec fn is_unsafe_read(t: &SyntaxTree, i: int, src: Text) -> bool {
    &&& t.kind(i) == "invocation_expression"@
    &&& has_part(t.text(i, src), "Deserialize"@)
    &&& has_part(t.text(i, src), "BinaryFormatter"@) || has_part(
        t.text(i, src),
        "JavaScriptSerializer"@,
    )
}

/// Whether node `i` creates an object in whose text `class` stands.
pub open spec fn is_creation(t: &SyntaxTree, i: int, class: Text, src: Text) -> bool {
    t.kind(i) == "object_creation_expression"@ && has_part(t.text(i, src), class)
}

fn is_creation_node(node: Node<'_>, class: &str, source: &str) -> (r: bool)
    requires
        node.valid(source@),
    ensures
        r == is_creation(node.tree, node.index as int, class@, source@),
{
    node.is_kind("object_creation_expression") && contains(node.text(source), class)
}

impl Visitor for NoUnsafeDeserialization {
    type Data = ();

    type Found = Finding;

    open spec fn found(d: (), t: &SyntaxTree, i: int, src: Text) -> Seq<Report> {
        said_if(
            is_unsafe_read(t, i, src),
            Self::facts(),
            "Unsafe deserialization — BinaryFormatter/JavaScriptSerializer can execute arbitrary code"@,
            t,
            i,
            src,
        ) + said_if(
            is_creation(t, i, "BinaryFormatter"@, src),
            Self::facts(),
            "new BinaryFormatter() — this type is inherently unsafe for deserialization"@,
            t,
            i,
            src,
        ) + said_if(
            is_creation(t, i, "JavaScriptSerializer"@, src),
            Self::facts(),
            "new JavaScriptSerializer() — this type is inherently unsafe for deserialization"@,
            t,
            i,
            src,
        )
    }

    fn visit(_data: &(), node: Node<'_>, source: &str, out: &mut Vec<Finding>) {
        let info = NoUnsafeDeserialization.info();
        let text = node.text(source);
        let read = node.is_kind("invocation_expression") && contains(text, "Deserialize") && (
        contains(text, "BinaryFormatter") || contains(text, "JavaScriptSerializer"));
        let ghost before = views(out@);
        say_if(
            read,
            &info,
            "Unsafe deserialization — BinaryFormatter/JavaScriptSerializer can execute arbitrary code",
            node,
            source,
            out,
        );
        say_if(
            is_creation_node(node, "BinaryFormatter", source),
            &info,
            "new BinaryFormatter() — this type is inherently unsafe for deserialization",
            node,
            source,
            out,
        );
        say_if(
            is_creation_node(node, "JavaScriptSerializer", source),
            &info,
            "new JavaScriptSerializer() — this type is inherently unsafe for deserialization",
            node,
            source,
            out,
        );
        assert(views(out@) =~= before + Self::found((), node.tree, node.index as int, source@));
    }
}

/// Potential SSRF via HTTP request with dynamic URL.
#[derive(Debug, Clone, Copy)]
pub struct NoSsrf;

impl NoSsrf {
    /// What the rule says of itself.
    pub open spec fn facts() -> RuleFacts {
        RuleFacts {
            id: "cs/no-ssrf"@,
            severity: Severity::High,
            cwe: Some("CWE-918"@),
            description: "Potential SSRF via HTTP request with dynamic URL"@,
            language: Language::CSharp,
            cnsa2_deadline: None,
        }
    }

    /// What the rule says of itself.
    pub fn info(&self) -> (r: RuleInfo)
        ensures
            r@ == Self::facts(),
    {
        RuleInfo {
            id: "cs/no-ssrf",
            severity: Severity::High,
            cwe: Some("CWE-918"),
            description: "Potential SSRF via HTTP request with dynamic URL",
            language: Language::CSharp,
            cnsa2_deadline: None,
        }
    }

    /// The findings of the rule in a file.
    pub fn check(&self, source: &str, tree: &SyntaxTree) -> (out: Vec<Finding>)
        requires
            tree.valid(source@),
            tree.len() > 0,
        ensures
            views(out@) == found_in::<Self>((), tree, source@),
    {
        walk_tree::<Self>(&(), tree.root_node(), source)
    }
}

/// What a request is sent with.
pub open spec fn request_calls() -> Seq<Text> {
    seq!["GetAsync"@, "PostAsync"@, "SendAsync"@, "GetStringAsync"@, "WebRequest.Create"@]
}

impl Visitor for NoSsrf {
    type Data = ();

    type Found = Finding;

    open spec fn found(d: (), t: &SyntaxTree, i: int, src: Text) -> Seq<Report> {
        said_if(
            t.kind(i) == "invocation_expression"@ && has_some_part(t.text(i, src), request_calls())
                && passing_lists::<FirstUnsafe>(t, i, src) > 0,
            Self::facts(),
            "HTTP request with dynamic URL — validate and allowlist target hosts to prevent SSRF"@,
            t,
            i,
            src,
        )
    }

    fn visit(_data: &(), node: Node<'_>, source: &str, out: &mut Vec<Finding>) {
        let calls = ["GetAsync", "PostAsync", "SendAsync", "GetStringAsync", "WebRequest.Create"];
        assert(views(calls@) =~= request_calls());
        let hit = node.is_kind("invocation_expression") && contains_some(
            node.text(source),
            &calls,
        ) && count_passing_lists::<FirstUnsafe>(node, source) > 0;
        say_if(
            hit,
            &NoSsrf.info(),
            "HTTP request with dynamic URL — validate and allowlist target hosts to prevent SSRF",
            node,
            source,
            out,
        );
    }
}

/// Potential path traversal via dynamic file path.
#[derive(Debug, Clone, Copy)]
pub struct NoPathTraversal;

impl NoPathTraversal {
    /// What the rule says of itself.
    pub open spec fn facts() -> RuleFacts {
        RuleFacts {
            id: "cs/no-path-traversal"@,
            severity: Severity::High,
            cwe: Some("CWE-22"@),
            description: "Potential path traversal via dynamic file path"@,
            language: Language::CSharp,
            cnsa2_deadline: None,
        }
    }

    /// What the rule says of itself.
    pub fn info(&self) -> (r: RuleInfo)
        ensures
            r@ == Self::facts(),
    {
        RuleInfo {
            id: "cs/no-path-traversal",
            severity: Severity::High,
            cwe: Some("CWE-22"),
            description: "Potential path traversal via dynamic file path",
            language: Language::CSharp,
            cnsa2_deadline: None,
        }
    }

    /// The findings of the rule in a file.
    pub fn check(&self, source: &str, tree: &SyntaxTree) -> (out: Vec<Finding>)
        requires
            tree.valid(source@),
            tree.len() > 0,
        ensures
            views(out@) == found_in::<Self>((), tree, source@),
    {
        walk_tree::<Self>(&(), tree.root_node(), source)
    }
}

/// The methods that open, read, write or delete files.
pub open spec fn file_methods() -> Seq<Text> {
    seq![
        "File.ReadAllText"@,
        "File.ReadAllBytes"@,
        "File.Open"@,
        "File.OpenRead"@,
        "File.WriteAllText"@,
        "File.Delete"@,
        "File.Exists"@,
    ]
}

/// What is reported where node `i` uses a path that is not safe.
pub open spec fn path_warning(t: &SyntaxTree, i: int, src: Text) -> Option<Text> {
    if passing_lists::<FirstUnsafe>(t, i, src) == 0 {
        None
    } else if t.kind(i) == "invocation_expression"@ && has_some_part(
        t.text(i, src),
        file_methods(),
    ) {
        Some("File operation with dynamic path — validate and sanitize to prevent path traversal"@)
    } else if t.kind(i) == "object_creation_expression"@ && has_part(
        t.text(i, src),
        "StreamReader"@,
    ) {
        Some("new StreamReader with dynamic path — validate and sanitize to prevent path traversal"@)
    } else if t.kind(i) == "object_creation_expression"@ && has_part(
        t.text(i, src),
        "FileStream"@,
    ) {
        Some("new FileStream with dynamic path — validate and sanitize to prevent path traversal"@)
    } else {
        None
    }
}

fn find_path_warning(node: Node<'_>, source: &str) -> (r: Option<&'static str>)
    requires
        node.valid(source@),
    ensures
        opt_view(r) == path_warning(node.tree, node.index as int, source@),
{
    if count_passing_lists::<FirstUnsafe>(node, source) == 0 {
        return None;
    }
    let methods = [
        "File.ReadAllText",
        "File.ReadAllBytes",
        "File.Open",
        "File.OpenRead",
        "File.WriteAllText",
        "File.Delete",
        "File.Exists",
    ];
    assert(views(methods@) =~= file_methods());
    let text = node.text(source);
    if node.is_kind("invocation_expression") && contains_some(text, &methods) {
        Some("File operation with dynamic path — validate and sanitize to prevent path traversal")
    } else if node.is_kind("object_creation_expression") && contains(text, "StreamReader") {
        Some("new StreamReader with dynamic path — validate and sanitize to prevent path traversal")
    } else if node.is_kind("object_creation_expression") && contains(text, "FileStream") {
        Some("new FileStream with dynamic path — validate and sanitize to prevent path traversal")
    } else {
        None
    }
}

impl Visitor for NoPathTraversal {
    type Data = ();

    type Found = Finding;

    open spec fn found(d: (), t: &SyntaxTree, i: int, src: Text) -> Seq<Report> {
        match path_warning(t, i, src) {
            Some(w) => seq![
                Report {
                    fix_suggestion: Some(
                        "Validate file paths with Path.GetFullPath() and ensure they don't escape the intended directory"@,
                    ),
                    ..said_of_node(Self::facts(), w, t, i, src)
                },
            ],
            None => Seq::empty(),
        }
    }

    fn visit(_data: &(), node: Node<'_>, source: &str, out: &mut Vec<Finding>) {
        match find_path_warning(node, source) {
            Some(w) => {
                let mut f = say_of_node(&NoPathTraversal.info(), w, node, source);
                f.fix_suggestion = Some(
                    "Validate file paths with Path.GetFullPath() and ensure they don't escape the intended directory".to_owned(),
                );
                out.push(f);
            },
            None => {},
        }
        assert(views(out@) =~= views(old(out)@) + Self::found(
            (),
            node.tree,
            node.index as int,
            source@,
        ));
    }
}

/// Use of weak cryptographic algorithm.
#[derive(Debug, Clone, Copy)]
pub struct NoWeakCrypto;

impl NoWeakCrypto {
    /// What the rule says of itself.
    pub open spec fn facts() -> RuleFacts {
        RuleFacts {
            id: "cs/no-weak-crypto"@,
            severity: Severity::Medium,
            cwe: Some("CWE-327"@),
            description: "Use of weak cryptographic algorithm"@,
            language: Language::CSharp,
            cnsa2_deadline: None,
        }
    }

    /// What the rule says of itself.
    pub fn info(&self) -> (r: RuleInfo)
        ensures
            r@ == Self::facts(),
    {
        RuleInfo {
            id: "cs/no-weak-crypto",
            severity: Severity::Medium,
            cwe: Some("CWE-327"),
            description: "Use of weak cryptographic algorithm",
            language: Language::CSharp,
            cnsa2_deadline: None,
        }
    }

    /// The findings of the rule in a file.
    pub fn check(&self, source: &str, tree: &SyntaxTree) -> (out: Vec<Finding>)
        requires
            tree.valid(source@),
            tree.len() > 0,
        ensures
            views(out@) == found_in::<Self>((), tree, source@),
    {
        walk_tree::<Self>(&(), tree.root_node(), source)
    }
}

/// The weak algorithm that an expression uses.
pub open spec fn weak_algorithm(text: Text) -> Option<Text> {
    if has_part(text, "MD5.Create"@) {
        Some("MD5"@)
    } else if has_part(text, "SHA1.Create"@) {
        Some("SHA1"@)
    } else if has_part(text, "DES.Create"@) || has_part(text, "DESCryptoServiceProvider"@) {
        Some("DES"@)
    } else if has_part(text, "RC2.Create"@) || has_part(text, "RC2CryptoServiceProvider"@) {
        Some("RC2"@)
    } else {
        None
    }
}

fn find_weak_algorithm(text: &str) -> (r: Option<&'static str>)
    ensures
        opt_view(r) == weak_algorithm(text@),
{
    if contains(text, "MD5.Create") {
        Some("MD5")
    } else if contains(text, "SHA1.Create") {
        Some("SHA1")
    } else if contains(text, "DES.Create") || contains(text, "DESCryptoServiceProvider") {
        Some("DES")
    } else if contains(text, "RC2.Create") || contains(text, "RC2CryptoServiceProvider") {
        Some("RC2")
    } else {
        None
    }
}

impl Visitor for NoWeakCrypto {
    type Data = ();

    type Found = Finding;

    open spec fn found(d: (), t: &SyntaxTree, i: int, src: Text) -> Seq<Report> {
        match weak_algorithm(t.text(i, src)) {
            Some(algo) => said_if(
                t.kind(i) == "invocation_expression"@ || t.kind(i)
                    == "object_creation_expression"@,
                Self::facts(),
                algo + " is cryptographically weak — use AES or SHA-256+"@,
                t,
                i,
                src,
            ),
            None => Seq::empty(),
        }
    }

    fn visit(_data: &(), node: Node<'_>, source: &str, out: &mut Vec<Finding>) {
        if node.is_kind("invocation_expression") || node.is_kind("object_creation_expression") {
            match find_weak_algorithm(node.text(source)) {
                Some(algo) => {
                    let d = concat2(algo, " is cryptographically weak — use AES or SHA-256+");
                    say_if(true, &NoWeakCrypto.info(), d.as_str(), node, source, out);
                },
                None => {},
            }
        }
        assert(views(out@) =~= views(old(out)@) + Self::found(
            (),
            node.tree,
            node.index as int,
            source@,
        ));
    }
}

/// Hardcoded secret or credential detected.
#[derive(Debug, Clone, Copy)]
pub struct NoHardcodedSecret;

impl NoHardcodedSecret {
    /// What the rule says of itself.
    pub open spec fn facts() -> RuleFacts {
        RuleFacts {
            id: "cs/no-hardcoded-secret"@,
            severity: Severity::High,
            cwe: Some("CWE-798"@),
            description: "Hardcoded secret or credential detected"@,
            language: Language::CSharp,
            cnsa2_deadline: None,
        }
    }

    /// What the rule says of itself.
    pub fn info(&self) -> (r: RuleInfo)
        ensures
            r@ == Self::facts(),
    {
        RuleInfo {
            id: "cs/no-hardcoded-secret",
            severity: Severity::High,
            cwe: Some("CWE-798"),
            description: "Hardcoded secret or credential detected",
            language: Language::CSharp,
            cnsa2_deadline: None,
        }
    }

    /// The literals whose variety has to be judged before the rule is run: those that may
    /// be secrets.
    pub fn candidates(&self, source: &str, tree: &SyntaxTree) -> (out: Vec<String>)
        requires
            tree.valid(source@),
            tree.len() > 0,
        ensures
            views(out@) == found_in::<SecretLiterals>((), tree, source@),
    {
        walk_tree::<SecretLiterals>(&(), tree.root_node(), source)
    }

    /// The findings of the rule in a file.
    pub fn check_with_context(&self, source: &str, tree: &SyntaxTree, ctx: &FileContext<'_>) -> (out:
        Vec<Finding>)
        requires
            tree.valid(source@),
            tree.len() > 0,
        ensures
            views(out@) == found_in::<Self>(ctx.secret_thresholds@, tree, source@),
    {
        walk_tree::<Self>(&ctx.secret_thresholds, tree.root_node(), source)
    }
}

/// The content of a string literal.
pub open spec fn literal_content(text: Text) -> Text {
    trimmed_of(trimmed_of(text, '"', '@'), '"', '"')
}

fn content_of<'a>(text: &'a str) -> (r: &'a str)
    ensures
        r@ == literal_content(text@),
{
    trim_chars(trim_chars(text, '"', '@'), '"', '"')
}

/// Whether a node of this kind is a string literal that a declaration may hold.
pub open spec fn is_declared_string(kind: Text) -> bool {
    kind == "string_literal"@ || kind == "verbatim_string_literal"@ || kind
        == "interpolated_string_expression"@
}

/// The contents of the string literals among the siblings from `c` on.
pub open spec fn literals_among(t: &SyntaxTree, c: int, e: int, src: Text) -> Seq<Text>
    decreases gap(c, e),
{
    if c >= e {
        Seq::empty()
    } else if is_declared_string(t.kind(c)) {
        seq![literal_content(t.text(c, src))] + literals_among(t, t.after(c), e, src)
    } else {
        literals_among(t, t.after(c), e, src)
    }
}

/// The name at node `i` of a variable that holds a secret, and the literals that it gets.
pub open spec fn secret_literals(t: &SyntaxTree, i: int, src: Text) -> Option<(Text, Seq<Text>)> {
    if t.kind(i) == "variable_declarator"@ {
        match t.field_text(i, "name"@, src) {
            Some(n) => if regex_matches(CSHARP_HARDCODED_SECRET_PATTERN@, n) {
                Some((n, literals_among(t, i + 1, t.after(i), src)))
            } else {
                None
            },
            None => None,
        }
    } else if t.kind(i) == "assignment_expression"@ {
        match (t.field_text(i, "left"@, src), t.field(i, "right"@)) {
            (Some(n), Some(v)) => if regex_matches(CSHARP_HARDCODED_SECRET_PATTERN@, n)
                && is_string(t.kind(v)) {
                Some((trimmed(n), seq![literal_content(t.text(v, src))]))
            } else {
                None
            },
            _ => None,
        }
    } else {
        None
    }
}

fn collect_literals(node: Node<'_>, source: &str) -> (out: Vec<String>)
    requires
        node.valid(source@),
    ensures
        views(out@) == literals_among(
            node.tree,
            node.index + 1,
            node.tree.after(node.index as int),
            source@,
        ),
{
    let ghost t = node.tree;
    let e: usize = node.end();
    let mut c: usize = node.index + 1;
    let mut out: Vec<String> = Vec::new();
    let ghost all = literals_among(t, c as int, e as int, source@);
    assert(views(out@) + all =~= all);
    while c < e
        invariant
            node.valid(source@),
            t == node.tree,
            e <= t.len(),
            views(out@) + literals_among(t, c as int, e as int, source@) == all,
        decreases gap(c as int, e as int),
    {
        let child = node.at(c);
        let next: usize = child.end();
        if child.is_kind("string_literal") || child.is_kind("verbatim_string_literal")
            || child.is_kind("interpolated_string_expression") {
            let ghost before = views(out@);
            let content = content_of(child.text(source)).to_owned();
            out.push(content);
            proof {
                let rest = literals_among(t, next as int, e as int, source@);
                assert(before.push(content@) + rest =~= before + (seq![content@] + rest));
            }
        }
        c = next;
    }
    assert(views(out@) + Seq::<Text>::empty() =~= views(out@));
    out
}

fn find_secret_literals<'s>(node: Node<'_>, source: &'s str) -> (r: Option<(&'s str, Vec<String>)>)
    requires
        node.valid(source@),
    ensures
        match r {
            Some((n, v)) => secret_literals(node.tree, node.index as int, source@) == Some(
                (n@, views(v@)),
            ),
            None => secret_literals(node.tree, node.index as int, source@) is None,
        },
{
    if node.is_kind("variable_declarator") {
        match node.field_text("name", source) {
            Some(n) => if is_regex_match(csharp_hardcoded_secret_re(), n) {
                Some((n, collect_literals(node, source)))
            } else {
                None
            },
            None => None,
        }
    } else if node.is_kind("assignment_expression") {
        match (node.field_text("left", source), node.child_by_field_name("right")) {
            (Some(n), Some(v)) => if is_regex_match(csharp_hardcoded_secret_re(), n)
                && is_string_literal(v) {
                let mut one: Vec<String> = Vec::new();
                one.push(content_of(v.text(source)).to_owned());
                assert(views(one@) =~= seq![literal_content(
                    node.tree.text(v.index as int, source@),
                )]);
                Some((trim(n), one))
            } else {
                None
            },
            _ => None,
        }
    } else {
        None
    }
}

/// Whether one of the strings passes the thresholds.
pub open spec fn some_passes(limits: Thresholds, values: Seq<Text>) -> bool {
    exists|k: int| 0 <= k < values.len() && passes(limits, #[trigger] values[k])
}

fn some_long_enough(limits: &SecretScanThresholds, values: &Vec<String>) -> (r: bool)
    ensures
        r == some_passes(limits@, views(values@)),
{
    let mut k: usize = 0;
    while k < values.len()
        invariant
            k <= values@.len(),
            forall|j: int| 0 <= j < k ==> !passes(limits@, #[trigger] views(values@)[j]),
        decreases values.len() - k,
    {
        assert(views(values@)[k as int] == values@[k as int]@);
        if is_secret_value_long_enough(values[k].as_str(), limits) {
            return true;
        }
        k = k + 1;
    }
    false
}

impl Visitor for NoHardcodedSecret {
    type Data = SecretScanThresholds;

    type Found = Finding;

    open spec fn found(limits: Thresholds, t: &SyntaxTree, i: int, src: Text) -> Seq<Report> {
        match secret_literals(t, i, src) {
            Some((n, values)) => said_if(
                some_passes(limits, values),
                Self::facts(),
                "Hardcoded secret in '"@ + n
                    + "' — use environment variables or a secret manager"@,
                t,
                i,
                src,
            ),
            None => Seq::empty(),
        }
    }

    fn visit(limits: &SecretScanThresholds, node: Node<'_>, source: &str, out: &mut Vec<Finding>) {
        match find_secret_literals(node, source) {
            Some((n, values)) => {
                let d = concat3(
                    "Hardcoded secret in '",
                    n,
                    "' — use environment variables or a secret manager",
                );
                let hit = some_long_enough(limits, &values);
                say_if(hit, &NoHardcodedSecret.info(), d.as_str(), node, source, out);
            },
            None => {
                assert(views(out@) + Seq::<Report>::empty() =~= views(out@));
            },
        }
    }
}

/// The literals of a file that may be secrets.
pub struct SecretLiterals;

impl Visitor for SecretLiterals {
    type Data = ();

    type Found = String;

    open spec fn found(d: (), t: &SyntaxTree, i: int, src: Text) -> Seq<Text> {
        match secret_literals(t, i, src) {
            Some((_, values)) => values,
            None => Seq::empty(),
        }
    }

    fn visit(_data: &(), node: Node<'_>, source: &str, out: &mut Vec<String>) {
        match find_secret_literals(node, source) {
            Some((_, values)) => {
                let mut more = values;
                out.append(&mut more);
            },
            None => {
                assert(views(out@) + Seq::<Text>::empty() =~= views(out@));
            },
        }
    }
}

/// What the thresholds say of strings that are no candidates makes no difference.
pub proof fn only_candidates_are_judged(a: Thresholds, b: Thresholds, t: &SyntaxTree, src: Text)
    requires
        forall|v: Text|
            #![trigger passes(a, v)]
            #![trigger passes(b, v)]
            found_in::<SecretLiterals>((), t, src).contains(v) ==> passes(a, v) == passes(b, v),
    ensures
        found_in::<NoHardcodedSecret>(a, t, src) == found_in::<NoHardcodedSecret>(b, t, src),
{
    lemma_only_candidates(a, b, t, 0, t.after(0), src);
}

proof fn lemma_only_candidates(
    a: Thresholds,
    b: Thresholds,
    t: &SyntaxTree,
    c: int,
    e: int,
    src: Text,
)
    requires
        forall|v: Text|
            #![trigger passes(a, v)]
            #![trigger passes(b, v)]
            walked::<SecretLiterals>((), t, c, e, src).contains(v) ==> passes(a, v) == passes(b, v),
    ensures
        walked::<NoHardcodedSecret>(a, t, c, e, src) == walked::<NoHardcodedSecret>(
            b,
            t,
            c,
            e,
            src,
        ),
    decreases gap(c, e),
{
    if c < e {
        let here = SecretLiterals::found((), t, c, src);
        let rest = walked::<SecretLiterals>((), t, c + 1, e, src);
        assert forall|v: Text|
            #![trigger passes(a, v)]
            #![trigger passes(b, v)]
            rest.contains(v) implies passes(a, v) == passes(b, v) by {
            let k = choose|k: int| 0 <= k < rest.len() && rest[k] == v;
            assert((here + rest)[here.len() + k] == v);
        }
        lemma_only_candidates(a, b, t, c + 1, e, src);
        match secret_literals(t, c, src) {
            Some((_, values)) => {
                assert forall|k: int| 0 <= k < values.len() implies passes(a, #[trigger] values[k])
                    == passes(b, values[k]) by {
                    assert((here + rest)[k] == values[k]);
                }
                assert(some_passes(a, values) == some_passes(b, values));
            },
            None => {},
        }
    }
}

/// Potential XXE vulnerability in XML parsing.
#[derive(Debug, Clone, Copy)]
pub struct NoXxe;

impl NoXxe {
    /// What the rule says of itself.
    pub open spec fn facts() -> RuleFacts {
        RuleFacts {
            id: "cs/no-xxe"@,
            severity: Severity::High,
            cwe: Some("CWE-611"@),
            description: "Potential XXE vulnerability in XML parsing"@,
            language: Language::CSharp,
            cnsa2_deadline: None,
        }
    }

    /// What the rule says of itself.
    pub fn info(&self) -> (r: RuleInfo)
        ensures
            r@ == Self::facts(),
    {
        RuleInfo {
            id: "cs/no-xxe",
            severity: Severity::High,
            cwe: Some("CWE-611"),
            description: "Potential XXE vulnerability in XML parsing",
            language: Language::CSharp,
            cnsa2_deadline: None,
        }
    }

    /// The findings of the rule in a file.
    pub fn check(&self, source: &str, tree: &SyntaxTree) -> (out: Vec<Finding>)
        requires
            tree.valid(source@),
            tree.len() > 0,
        ensures
            views(out@) == found_in::<Self>(is_hardened(source@), tree, source@),
    {
        let hardened = contains(source, "DtdProcessing.Prohibit") || contains(
            source,
            "ProhibitDtd = true",
        ) || resolver_nulled(source);
        walk_tree::<Self>(&hardened, tree.root_node(), source)
    }
}

/// Whether a text goes on with `= null`.
pub open spec fn is_set_to_null(s: Text) -> bool {
    let rest = trimmed_start(s);
    begins_with(rest, "="@) && begins_with(trimmed_start(rest.skip(1)), "null"@)
}

/// Whether a text sets an `XmlResolver` to null.
pub open spec fn nulls_resolver(src: Text) -> bool {
    exists|i: int|
        #[trigger]
        occurs_at(src, "XmlResolver"@, i) && is_set_to_null(src.skip(i + "XmlResolver"@.len()))
}

/// Whether a file keeps its XML parsers from reading document types.
pub open spec fn is_hardened(src: Text) -> bool {
    ||| has_part(src, "DtdProcessing.Prohibit"@)
    ||| has_part(src, "ProhibitDtd = true"@)
    ||| nulls_resolver(src)
}

fn sets_to_null(s: &str) -> (r: bool)
    ensures
        r == is_set_to_null(s@),
{
    let rest = trim_start(s);
    if !starts_with(rest, "=") {
        return false;
    }
    proof {
        reveal_strlit("=");
    }
    let n: usize = rest.unicode_len();
    assert(rest@.subrange(1, rest@.len() as int) =~= rest@.skip(1));
    starts_with(trim_start(rest.substring_char(1, n)), "null")
}

fn resolver_nulled(source: &str) -> (r: bool)
    ensures
        r == nulls_resolver(source@),
{
    let a = chars_of(source);
    let b = chars_of("XmlResolver");
    let n: usize = a.len();
    let m: usize = b.len();
    let mut i: usize = 0;
    loop
        invariant
            i <= n,
            n == a@.len(),
            a@ == source@,
            b@ == "XmlResolver"@,
            m == b@.len(),
            forall|j: int|
                0 <= j < i ==> !(#[trigger] occurs_at(source@, "XmlResolver"@, j)
                    && is_set_to_null(source@.skip(j + "XmlResolver"@.len()))),
        decreases n - i,
    {
        if chars_occur_at(&a, &b, i) {
            assert(source@.subrange(i + m, n as int) =~= source@.skip(i + m));
            if sets_to_null(source.substring_char(i + m, n)) {
                assert(occurs_at(source@, "XmlResolver"@, i as int));
                return true;
            }
        }
        if i == n {
            assert forall|j: int| #[trigger]
                occurs_at(source@, "XmlResolver"@, j) implies !is_set_to_null(
                source@.skip(j + "XmlResolver"@.len()),
            ) by {}
            return false;
        }
        i = i + 1;
    }
}

/// Whether node `i` reads XML.
pub open spec fn reads_xml(t: &SyntaxTree, i: int, src: Text) -> bool {
    let text = t.text(i, src);
    &&& t.kind(i) == "invocation_expression"@
    &&& (has_part(text, "XmlDocument"@) && has_part(text, "Load"@)) || (has_part(
        text,
        "XmlReader"@,
    ) && has_part(text, "Create"@)) || has_part(text, "XmlTextReader"@)
}

/// Whether node `i` creates an XML parser.
pub open spec fn makes_parser(t: &SyntaxTree, i: int, src: Text) -> bool {
    is_creation(t, i, "XmlDocument"@, src) || is_creation(t, i, "XmlTextReader"@, src)
}

impl Visitor for NoXxe {
    /// Whether the file is hardened.
    type Data = bool;

    type Found = Finding;

    open spec fn found(hardened: bool, t: &SyntaxTree, i: int, src: Text) -> Seq<Report> {
        said_if(
            reads_xml(t, i, src) && !hardened,
            Self::facts(),
            "XML parsing without DtdProcessing.Prohibit — vulnerable to XXE attacks"@,
            t,
            i,
            src,
        ) + said_if(
            makes_parser(t, i, src) && !hardened,
            Self::facts(),
            "XML parser created without disabling DTD processing — vulnerable to XXE attacks"@,
            t,
            i,
            src,
        )
    }

    fn visit(hardened: &bool, node: Node<'_>, source: &str, out: &mut Vec<Finding>) {
        let info = NoXxe.info();
        let text = node.text(source);
        let reads = node.is_kind("invocation_expression") && ((contains(text, "XmlDocument")
            && contains(text, "Load")) || (contains(text, "XmlReader") && contains(text, "Create"))
            || contains(text, "XmlTextReader"));
        let makes = is_creation_node(node, "XmlDocument", source) || is_creation_node(
            node,
            "XmlTextReader",
            source,
        );
        say_if(
            reads && !*hardened,
            &info,
            "XML parsing without DtdProcessing.Prohibit — vulnerable to XXE attacks",
            node,
            source,
            out,
        );
        say_if(
            makes && !*hardened,
            &info,
            "XML parser created without disabling DTD processing — vulnerable to XXE attacks",
            node,
            source,
            out,
        );
    }
}

/// Potential LDAP injection via string concatenation in search filter.
#[derive(Debug, Clone, Copy)]
pub struct NoLdapInjection;

impl NoLdapInjection {
    /// What the rule says of itself.
    pub open spec fn facts() -> RuleFacts {
        RuleFacts {
            id: "cs/no-ldap-injection"@,
            severity: Severity::High,
            cwe: Some("CWE-90"@),
            description: "Potential LDAP injection via string concatenation in search filter"@,
            language: Language::CSharp,
            cnsa2_deadline: None,
        }
    }

    /// What the rule says of itself.
    pub fn info(&self) -> (r: RuleInfo)
        ensures
            r@ == Self::facts(),
    {
        RuleInfo {
            id: "cs/no-ldap-injection",
            severity: Severity::High,
            cwe: Some("CWE-90"),
            description: "Potential LDAP injection via string concatenation in search filter",
            language: Language::CSharp,
            cnsa2_deadline: None,
        }
    }

    /// The findings of the rule in a file.
    pub fn check(&self, source: &str, tree: &SyntaxTree) -> (out: Vec<Finding>)
        requires
            tree.valid(source@),
            tree.len() > 0,
        ensures
            views(out@) == found_in::<Self>((), tree, source@),
    {
        walk_tree::<Self>(&(), tree.root_node(), source)
    }
}

/// Whether an expression is the filter of a directory search.
pub open spec fn is_filter(left: Text) -> bool {
    &&& has_part(left, "Filter"@)
    &&& has_part(left, "DirectorySearcher"@) || has_part(left, "searcher"@) || finishes_with(
        left,
        ".Filter"@,
    )
}

/// Whether node `i` sets the filter of a directory search to a string that is put together.
pub open spec fn is_built_filter(t: &SyntaxTree, i: int, src: Text) -> bool {
    &&& t.kind(i) == "assignment_expression"@
    &&& t.field_text(i, "left"@, src) matches Some(left)
    &&& is_filter(left)
    &&& t.field(i, "right"@) matches Some(right)
    &&& is_built(t, right, src)
}

fn is_built_filter_node(node: Node<'_>, source: &str) -> (r: bool)
    requires
        node.valid(source@),
    ensures
        r == is_built_filter(node.tree, node.index as int, source@),
{
    if !node.is_kind("assignment_expression") {
        return false;
    }
    match (node.field_text("left", source), node.child_by_field_name("right")) {
        (Some(left), Some(right)) => contains(left, "Filter") && (contains(
            left,
            "DirectorySearcher",
        ) || contains(left, "searcher") || ends_with(left, ".Filter"))
            && is_tainting_string_concat(right, source),
        _ => false,
    }
}

impl Visitor for NoLdapInjection {
    type Data = ();

    type Found = Finding;

    open spec fn found(d: (), t: &SyntaxTree, i: int, src: Text) -> Seq<Report> {
        said_if(
            is_built_filter(t, i, src),
            Self::facts(),
            "LDAP filter built with string concatenation — use parameterized filters to prevent LDAP injection"@,
            t,
            i,
            src,
        ) + said_if(
            is_creation(t, i, "DirectorySearcher"@, src) && passing_lists::<Built>(t, i, src) > 0,
            Self::facts(),
            "DirectorySearcher created with concatenated filter — use parameterized filters to prevent LDAP injection"@,
            t,
            i,
            src,
        )
    }

    fn visit(_data: &(), node: Node<'_>, source: &str, out: &mut Vec<Finding>) {
        let info = NoLdapInjection.info();
        say_if(
            is_built_filter_node(node, source),
            &info,
            "LDAP filter built with string concatenation — use parameterized filters to prevent LDAP injection",
            node,
            source,
            out,
        );
        say_if(
            is_creation_node(node, "DirectorySearcher", source) && count_passing_lists::<Built>(
                node,
                source,
            ) > 0,
            &info,
            "DirectorySearcher created with concatenated filter — use parameterized filters to prevent LDAP injection",
            node,
            source,
            out,
        );
    }
}

/// Overly permissive CORS configuration.
#[derive(Debug, Clone, Copy)]
pub struct NoCorsStar;

impl NoCorsStar {
    /// What the rule says of itself.
    pub open spec fn facts() -> RuleFacts {
        RuleFacts {
            id: "cs/no-cors-star"@,
            severity: Severity::Medium,
            cwe: Some("CWE-942"@),
            description: "Overly permissive CORS configuration"@,
            language: Language::CSharp,
            cnsa2_deadline: None,
        }
    }

    /// What the rule says of itself.
    pub fn info(&self) -> (r: RuleInfo)
        ensures
            r@ == Self::facts(),
    {
        RuleInfo {
            id: "cs/no-cors-star",
            severity: Severity::Medium,
            cwe: Some("CWE-942"),
            description: "Overly permissive CORS configuration",
            language: Language::CSharp,
            cnsa2_deadline: None,
        }
    }

    /// The findings of the rule in a file.
    pub fn check(&self, source: &str, tree: &SyntaxTree) -> (out: Vec<Finding>)
        requires
            tree.valid(source@),
            tree.len() > 0,
        ensures
            views(out@) == found_in::<Self>((), tree, source@),
    {
        walk_tree::<Self>(&(), tree.root_node(), source)
    }
}

/// A setting that lets every origin in, as a regular expression.
pub const CORS_STAR: &'static str = r#"WithOrigins\s*\(\s*"\*"\s*\)"#;

/// The text of the function that is called at node `i`: that of its first child.
pub open spec fn called(t: &SyntaxTree, i: int, src: Text) -> Text {
    if i + 1 < t.after(i) {
        t.text(i + 1, src)
    } else {
        Seq::empty()
    }
}

fn called_text<'s>(node: Node<'_>, source: &'s str) -> (r: &'s str)
    requires
        node.valid(source@),
    ensures
        r@ == called(node.tree, node.index as int, source@),
{
    let e: usize = node.end();
    if node.index + 1 < e {
        node.at(node.index + 1).text(source)
    } else {
        proof {
            reveal_strlit("");
            assert(""@ =~= Seq::empty());
        }
        ""
    }
}

impl Visitor for NoCorsStar {
    type Data = ();

    type Found = Finding;

    open spec fn found(d: (), t: &SyntaxTree, i: int, src: Text) -> Seq<Report> {
        let f = called(t, i, src);
        if t.kind(i) != "invocation_expression"@ {
            Seq::empty()
        } else if finishes_with(f, "AllowAnyOrigin"@) {
            said_if(
                true,
                Self::facts(),
                "AllowAnyOrigin() permits requests from any domain — restrict CORS origins"@,
                t,
                i,
                src,
            )
        } else {
            said_if(
                finishes_with(f, "WithOrigins"@) && regex_matches(CORS_STAR@, t.text(i, src)),
                Self::facts(),
                "WithOrigins(\"*\") permits requests from any domain — restrict CORS origins"@,
                t,
                i,
                src,
            )
        }
    }

    fn visit(_data: &(), node: Node<'_>, source: &str, out: &mut Vec<Finding>) {
        let info = NoCorsStar.info();
        if !node.is_kind("invocation_expression") {
            assert(views(out@) + Seq::<Report>::empty() =~= views(out@));
            return;
        }
        let f = called_text(node, source);
        if ends_with(f, "AllowAnyOrigin") {
            say_if(
                true,
                &info,
                "AllowAnyOrigin() permits requests from any domain — restrict CORS origins",
                node,
                source,
                out,
            );
        } else {
            say_if(
                ends_with(f, "WithOrigins") && is_regex_match(CORS_STAR, node.text(source)),
                &info,
                "WithOrigins(\"*\") permits requests from any domain — restrict CORS origins",
                node,
                source,
                out,
            );
        }
    }
}

} // verus!
