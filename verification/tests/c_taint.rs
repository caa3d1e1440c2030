use taintlint::c_taint::{
    analyze_tree, buffer_overflow_spec, command_injection_spec, format_string_spec,
    sql_injection_spec,
};
use taintlint::taint_engine::{TaintFinding, TaintSpec};
use taintlint::tree::{SyntaxNode, SyntaxTree};

fn add_nodes(cursor: &mut tree_sitter::TreeCursor<'_>, parent: Option<usize>, nodes: &mut Vec<SyntaxNode>) {
    let n = cursor.node();
    let index = nodes.len();
    nodes.push(SyntaxNode {
        kind: n.kind().to_string(),
        named: n.is_named(),
        field: cursor.field_name().map(|f| f.to_string()),
        start_byte: n.start_byte(),
        end_byte: n.end_byte(),
        start_row: n.start_position().row,
        start_column: n.start_position().column,
        end_row: n.end_position().row,
        end_column: n.end_position().column,
        parent,
        end: 0,
    });
    if cursor.goto_first_child() {
        loop {
            add_nodes(cursor, Some(index), nodes);
            if !cursor.goto_next_sibling() {
                break;
            }
        }
        cursor.goto_parent();
    }
    nodes[index].end = nodes.len();
}

fn parse(source: &str) -> SyntaxTree {
    let mut parser = tree_sitter::Parser::new();
    parser
        .set_language(&tree_sitter_c::LANGUAGE.into())
        .expect("the grammar should load");
    let parsed = parser.parse(source, None).expect("the fixture should parse");
    let mut nodes = Vec::new();
    add_nodes(&mut parsed.walk(), None, &mut nodes);
    let tree = SyntaxTree { nodes };
    assert!(tree.check(source));
    tree
}


fn analyze(src: &str, spec: &TaintSpec) -> Vec<TaintFinding> {
    let tree = parse(src);
    analyze_tree(tree.root_node(), src, spec, None)
}

#[test]
fn format_string_via_getenv() {
    let src = r#"
#include <stdio.h>
#include <stdlib.h>

void handler() {
    char *input = getenv("USER_INPUT");
    printf(input);
}
"#;
    let findings = analyze(src, &format_string_spec());
    assert!(
        !findings.is_empty(),
        "should detect printf with tainted format string: {:?}",
        findings
    );
}

#[test]
fn format_string_safe_literal() {
    let src = r#"
#include <stdio.h>
#include <stdlib.h>

void handler() {
    char *input = getenv("USER_INPUT");
    printf("%s", input);
}
"#;
    let findings = analyze(src, &format_string_spec());
    assert!(
        findings.is_empty(),
        "printf with literal format string should be safe: {:?}",
        findings
    );
}

#[test]
fn command_injection_via_system() {
    let src = r#"
#include <stdlib.h>

void handler() {
    char *cmd = getenv("CMD");
    system(cmd);
}
"#;
    let findings = analyze(src, &command_injection_spec());
    assert!(
        !findings.is_empty(),
        "should detect system() with tainted argument: {:?}",
        findings
    );
}

#[test]
fn buffer_overflow_via_strcpy() {
    let src = r#"
#include <string.h>
#include <stdio.h>

void handler() {
    char buf[256];
    char dest[64];
    fgets(buf, sizeof(buf), stdin);
    strcpy(dest, buf);
}
"#;
    let findings = analyze(src, &buffer_overflow_spec());
    assert!(
        !findings.is_empty(),
        "should detect strcpy with tainted source: {:?}",
        findings
    );
}

#[test]
fn buffer_overflow_sanitized_by_strncpy() {
    let src = r#"
#include <string.h>
#include <stdio.h>

void handler() {
    char buf[256];
    char dest[64];
    fgets(buf, sizeof(buf), stdin);
    char *safe = strncpy(dest, buf, sizeof(dest) - 1);
    strcpy(dest, safe);
}
"#;
    let findings = analyze(src, &buffer_overflow_spec());
    assert!(
        findings.is_empty(),
        "strncpy should sanitize the taint: {:?}",
        findings
    );
}

#[test]
fn sql_injection_via_sprintf() {
    let src = r#"
#include <stdio.h>
#include <stdlib.h>
#include <sqlite3.h>

void handler(sqlite3 *db) {
    char *input = getenv("QUERY");
    char query[512];
    sprintf(query, "SELECT * FROM users WHERE name = '%s'", input);
    sqlite3_exec(db, query, NULL, NULL, NULL);
}
"#;
    let findings = analyze(src, &sql_injection_spec());
    assert!(
        !findings.is_empty(),
        "should detect sqlite3_exec with tainted query: {:?}",
        findings
    );
}

#[test]
fn argv_to_system() {
    let src = r#"
#include <stdlib.h>

int main(int argc, char **argv) {
    system(argv[1]);
}
"#;
    let findings = analyze(src, &command_injection_spec());
    assert!(
        !findings.is_empty(),
        "should detect system() with argv: {:?}",
        findings
    );
}

#[test]
fn recv_to_execv() {
    let src = r#"
#include <unistd.h>
#include <sys/socket.h>

void handler(int sockfd) {
    char buf[1024];
    recv(sockfd, buf, sizeof(buf), 0);
    execv(buf, NULL);
}
"#;
    let findings = analyze(src, &command_injection_spec());
    assert!(
        !findings.is_empty(),
        "should detect execv() with socket data: {:?}",
        findings
    );
}

#[test]
fn c_taint_clean_literal_no_finding() {
    let src = r#"
#include <stdlib.h>

void handler() {
    system("ls -la");
}
"#;
    let findings = analyze(src, &command_injection_spec());
    assert!(
        findings.is_empty(),
        "literal command should not trigger taint: {:?}",
        findings
    );
}

#[test]
fn transitive_taint_through_assignment() {
    let src = r#"
#include <stdlib.h>

void handler() {
    char *input = getenv("CMD");
    char *cmd = input;
    system(cmd);
}
"#;
    let findings = analyze(src, &command_injection_spec());
    assert!(
        !findings.is_empty(),
        "should detect transitive taint: {:?}",
        findings
    );
}

// exec* command injection is path-argument-driven ---------------

#[test]
fn execv_literal_path_tainted_arg_is_safe() {
    let src = r#"
#include <unistd.h>
#include <stdlib.h>

void handler() {
    char *arg = getenv("ARG");
    char *argv[] = {"cat", arg, NULL};
    execv("/bin/cat", argv);
}
"#;
    let findings = analyze(src, &command_injection_spec());
    assert!(
        findings.is_empty(),
        "execv with a literal path is safe even with a tainted data arg: {:?}",
        findings
    );
}

#[test]
fn execl_tainted_path_still_flags() {
    let src = r#"
#include <unistd.h>
#include <stdlib.h>

void handler() {
    char *path = getenv("PATH_INPUT");
    execl(path, "x", NULL);
}
"#;
    let findings = analyze(src, &command_injection_spec());
    assert!(
        !findings.is_empty(),
        "execl with a tainted pathname must still flag: {:?}",
        findings
    );
}

// memcpy with a constant/sizeof size is bounded -----------------

#[test]
fn memcpy_literal_size_is_safe() {
    let src = r#"
#include <string.h>
#include <stdlib.h>

void handler() {
    char *src = getenv("DATA");
    char buf[64];
    memcpy(buf, src, 64);
}
"#;
    let findings = analyze(src, &buffer_overflow_spec());
    assert!(
        findings.is_empty(),
        "memcpy with a constant size should not flag: {:?}",
        findings
    );
}

#[test]
fn memcpy_sizeof_size_is_safe() {
    let src = r#"
#include <string.h>
#include <stdlib.h>

void handler() {
    char *src = getenv("DATA");
    char buf[64];
    memcpy(buf, src, sizeof(buf));
}
"#;
    let findings = analyze(src, &buffer_overflow_spec());
    assert!(
        findings.is_empty(),
        "memcpy with a sizeof() size should not flag: {:?}",
        findings
    );
}

#[test]
fn memcpy_tainted_size_still_flags() {
    let src = r#"
#include <string.h>
#include <stdlib.h>

void handler() {
    char *input = getenv("DATA");
    char dest[64];
    memcpy(dest, input, strlen(input));
}
"#;
    let findings = analyze(src, &buffer_overflow_spec());
    assert!(
        !findings.is_empty(),
        "memcpy with a tainted/dynamic length must still flag: {:?}",
        findings
    );
}

// sprintf/snprintf format-string collision ----------------------

#[test]
fn sprintf_untrusted_format_no_double_fire() {
    let src = r#"
#include <stdio.h>
#include <stdlib.h>

void handler() {
    char *fmt = getenv("FMT");
    char dest[64];
    sprintf(dest, fmt, "x");
    printf("%s", dest);
}
"#;
    let findings = analyze(src, &format_string_spec());
    assert!(
        findings.is_empty(),
        "tainted sprintf format must not re-fire via the dest buffer: {:?}",
        findings
    );
}

#[test]
fn snprintf_untrusted_format_not_flagged() {
    let src = r#"
#include <stdio.h>
#include <stdlib.h>

void handler() {
    char *fmt = getenv("FMT");
    char buf[64];
    snprintf(buf, sizeof(buf), fmt, "x");
}
"#;
    let findings = analyze(src, &format_string_spec());
    assert!(
        findings.is_empty(),
        "snprintf is bounds-safe and not a format-string sink: {:?}",
        findings
    );
}

#[test]
fn printf_tainted_format_still_flags() {
    let src = r#"
#include <stdio.h>
#include <stdlib.h>

void handler() {
    char *fmt = getenv("FMT");
    printf(fmt);
}
"#;
    let findings = analyze(src, &format_string_spec());
    assert!(
        !findings.is_empty(),
        "printf with a tainted format must still flag: {:?}",
        findings
    );
}

#[test]
fn scanf_to_system() {
    let src = r#"
#include <stdio.h>
#include <stdlib.h>

void handler() {
    char buf[256];
    scanf("%s", buf);
    system(buf);
}
"#;
    let findings = analyze(src, &command_injection_spec());
    assert!(
        !findings.is_empty(),
        "should detect scanf input flowing to system(): {:?}",
        findings
    );
}
