use taintlint::go_taint::{analyze_tree, go_aliases_from_tree, go_taint_sources};
use taintlint::taint_engine::{NodeMatcher, TaintFinding, TaintSpec};
use taintlint::tree::{SyntaxNode, SyntaxTree};

fn add_nodes(cursor: &mut tree_sitter::TreeCursor<'_>, parent: Option<usize>, nodes: &mut Vec<SyntaxNode>) {
    let n = cursor.node();
    let index = nodes.len();
    nodes.push(SyntaxNode {
        kind: n.kind().to_string(),
        named: n.is_named(),
        field: cursor.field_name().map(|f| f.to_string()),
        start_byte: n.start_byte(),
        end_byte: n.end_byte(),
        start_row: n.start_position().row,
        start_column: n.start_position().column,
        end_row: n.end_position().row,
        end_column: n.end_position().column,
        parent,
        end: 0,
    });
    if cursor.goto_first_child() {
        loop {
            add_nodes(cursor, Some(index), nodes);
            if !cursor.goto_next_sibling() {
                break;
            }
        }
        cursor.goto_parent();
    }
    nodes[index].end = nodes.len();
}

fn parse(source: &str) -> SyntaxTree {
    let mut parser = tree_sitter::Parser::new();
    parser
        .set_language(&tree_sitter_go::LANGUAGE.into())
        .expect("the grammar should load");
    let parsed = parser.parse(source, None).expect("the fixture should parse");
    let mut nodes = Vec::new();
    add_nodes(&mut parsed.walk(), None, &mut nodes);
    let tree = SyntaxTree { nodes };
    assert!(tree.check(source));
    tree
}


fn spec_exec_command() -> TaintSpec {
    TaintSpec {
        sources: go_taint_sources(),
        sinks: vec![NodeMatcher::Call {
            canonical: "exec.Command".into(),
            description: "exec.Command".into(),
        }],
        sanitizers: vec![],
    }
}

fn run(source: &str) -> Vec<TaintFinding> {
    run_with(source, &spec_exec_command())
}

fn run_with(source: &str, spec: &TaintSpec) -> Vec<TaintFinding> {
    let tree = parse(source);
    let aliases = go_aliases_from_tree(source, &tree);
    analyze_tree(tree.root_node(), source, spec, Some(&aliases))
}

#[test]
fn direct_flow_gin_query_to_exec_command() {
    let src = r#"
package main

import "os/exec"

func handler(c *gin.Context) {
    name := c.Query("name")
    exec.Command(name)
}
"#;
    let f = run(src);
    assert_eq!(f.len(), 1);
    assert!(f[0].source_description.contains("gin"));
    assert_eq!(f[0].sink_description, "exec.Command");
}

#[test]
fn net_http_form_value_to_exec() {
    let src = r#"
package main

import (
    "net/http"
    "os/exec"
)

func handler(w http.ResponseWriter, r *http.Request) {
    cmd := r.FormValue("cmd")
    exec.Command(cmd)
}
"#;
    assert_eq!(run(src).len(), 1);
}

#[test]
fn echo_context_query_param_to_exec() {
    let src = r#"
package main

import "os/exec"

func handler(c echo.Context) error {
    name := c.QueryParam("name")
    exec.Command(name)
    return nil
}
"#;
    assert_eq!(run(src).len(), 1);
}

#[test]
fn fiber_ctx_query_to_exec() {
    let src = r#"
package main

import "os/exec"

func handler(c *fiber.Ctx) error {
    name := c.Query("name")
    exec.Command(name)
    return nil
}
"#;
    assert_eq!(run(src).len(), 1);
}

#[test]
fn os_getenv_to_exec() {
    let src = r#"
package main

import (
    "os"
    "os/exec"
)

func main() {
    path := os.Getenv("TARGET")
    exec.Command(path)
}
"#;
    assert_eq!(run(src).len(), 1);
}

#[test]
fn method_call_on_tainted_receiver_propagates() {
    // `r.URL` is a tainted attribute source; `.Query()` is a
    // method call on the tainted receiver and must stay tainted.
    let src = r#"
package main

import "os/exec"

func handler(w http.ResponseWriter, r *http.Request) {
    q := r.URL.Query().Get("name")
    exec.Command(q)
}
"#;
    assert_eq!(run(src).len(), 1);
}

#[test]
fn fmt_sprintf_wraps_taint() {
    let src = r#"
package main

import (
    "fmt"
    "os/exec"
)

func handler(c *gin.Context) {
    cmd := fmt.Sprintf("echo %s", c.Query("name"))
    exec.Command(cmd)
}
"#;
    assert_eq!(run(src).len(), 1);
}

#[test]
fn string_concat_propagates_taint() {
    let src = r#"
package main

import "os/exec"

func handler(c *gin.Context) {
    cmd := "echo " + c.Query("name")
    exec.Command(cmd)
}
"#;
    assert_eq!(run(src).len(), 1);
}

#[test]
fn reassignment_to_literal_kills_taint() {
    let src = r#"
package main

import "os/exec"

func handler(c *gin.Context) {
    name := c.Query("name")
    name = "static"
    exec.Command(name)
}
"#;
    assert_eq!(run(src).len(), 0);
}

#[test]
fn interprocedural_tainted_return() {
    let src = r#"
package main

import "os/exec"

func getInput(c *gin.Context) string {
    return c.Query("name")
}

func handler(c *gin.Context) {
    name := getInput(c)
    exec.Command(name)
}
"#;
    let f = run(src);
    assert_eq!(f.len(), 1);
    assert!(f[0].source_description.contains("getInput"));
}

#[test]
fn interprocedural_clean_return_does_not_fire() {
    let src = r#"
package main

import "os/exec"

func staticCmd() string {
    return "ls"
}

func handler() {
    exec.Command(staticCmd())
}
"#;
    assert_eq!(run(src).len(), 0);
}

#[test]
fn interprocedural_return_is_parameter_sensitive() {
    let src = r#"
package main

import "os/exec"

func choose(first, second string) string {
    return second
}

func handler(c *gin.Context) {
    clean := "ls"
    exec.Command(choose(c.Query("name"), clean))
}
"#;
    assert_eq!(run(src).len(), 0);
}

#[test]
fn nested_subscript_propagates() {
    // Go map-of-maps: `m[k1][k2]` — if the outer root `headers` is
    // tainted via `r.Header`, deep index access stays tainted.
    let src = r#"
package main

import "os/exec"

func handler(w http.ResponseWriter, r *http.Request) {
    headers := r.Header
    exec.Command(headers["X-Cmd"][0])
}
"#;
    assert_eq!(run(src).len(), 1);
}

#[test]
fn multi_return_destructuring_taints_all() {
    // Conservative policy: when helper returns tainted, every LHS
    // name in `a, b := helper()` is tainted.
    let src = r#"
package main

import "os/exec"

func helper(c *gin.Context) (string, error) {
    return c.Query("name"), nil
}

func handler(c *gin.Context) {
    name, err := helper(c)
    _ = err
    exec.Command(name)
}
"#;
    let f = run(src);
    assert_eq!(f.len(), 1);
}

#[test]
fn sanitizer_call_kills_taint() {
    let mut spec = spec_exec_command();
    spec.sanitizers = vec![NodeMatcher::Call {
        canonical: "html.EscapeString".into(),
        description: "html.EscapeString".into(),
    }];
    let src = r#"
package main

import (
    "html"
    "os/exec"
)

func handler(c *gin.Context) {
    raw := c.Query("name")
    clean := html.EscapeString(raw)
    exec.Command(clean)
}
"#;
    assert_eq!(run_with(src, &spec).len(), 0);
}

#[test]
fn alias_resolution_through_import_table() {
    // `import f "fmt"; f.Sprintf(...)` — a spec targeting
    // `fmt.Sprintf` as a sink must still match. Use a custom spec
    // so the canonical path is explicit.
    let spec = TaintSpec {
        sources: go_taint_sources(),
        sinks: vec![NodeMatcher::Call {
            canonical: "fmt.Sprintf".into(),
            description: "fmt.Sprintf".into(),
        }],
        sanitizers: vec![],
    };
    let src = r#"
package main

import f "fmt"

func handler(c *gin.Context) {
    _ = f.Sprintf("%s", c.Query("name"))
}
"#;
    let findings = run_with(src, &spec);
    assert_eq!(findings.len(), 1);
}

#[test]
fn closure_gin_handler_fires_taint() {
    // Closures passed as arguments to Gin router methods must be
    // analyzed. This is the idiomatic way to write Gin handlers.
    let src = r#"
package main

import (
    "os/exec"
    "github.com/gin-gonic/gin"
)

func main() {
    r := gin.Default()
    r.GET("/run", func(c *gin.Context) {
        cmd := c.Query("cmd")
        exec.Command(cmd).Output()
    })
}
"#;
    let f = run(src);
    assert_eq!(f.len(), 1);
    assert!(f[0].source_description.contains("gin"));
    assert_eq!(f[0].sink_description, "exec.Command");
}

#[test]
fn closure_net_http_handler_fires_taint() {
    // net/http handler written as a closure.
    let src = r#"
package main

import (
    "net/http"
    "os/exec"
)

func main() {
    http.HandleFunc("/run", func(w http.ResponseWriter, r *http.Request) {
        cmd := r.FormValue("cmd")
        exec.Command(cmd)
    })
}
"#;
    let f = run(src);
    assert_eq!(f.len(), 1);
}

#[test]
fn no_source_no_finding() {
    let src = r#"
package main

import "os/exec"

func main() {
    exec.Command("ls", "-la")
}
"#;
    assert_eq!(run(src).len(), 0);
}

#[test]
fn import_alias_table_basic() {
    let src = r#"
package main

import (
    f "fmt"
    "net/http"
    alias "some/pkg/deep"
)
"#;
    let tree = parse(src);
    let a = go_aliases_from_tree(src, &tree);
    assert_eq!(a.get("f"), Some("fmt"));
    assert_eq!(a.get("http"), Some("http"));
    assert_eq!(a.get("alias"), Some("deep"));
    assert_eq!(a.resolve("f.Sprintf"), "fmt.Sprintf");
    assert_eq!(a.resolve("http.Get"), "http.Get");
}

#[test]
fn method_declaration_summary_collected() {
    // Method with tainted return; caller elsewhere uses the bare
    // method name via the summary table.
    let src = r#"
package main

import "os/exec"

type S struct{}

func (s *S) Fetch(c *gin.Context) string {
    return c.Query("name")
}

func handler(c *gin.Context) {
    var s S
    name := s.Fetch(c)
    exec.Command(name)
}
"#;
    let f = run(src);
    assert_eq!(f.len(), 1);
    assert!(f[0].source_description.contains("Fetch"));
}

#[test]
fn type_assertion_propagates_taint() {
    let src = r#"
package main

import "os/exec"

func handler(c *gin.Context) {
    var val interface{} = c.Query("cmd")
    cmd := val.(string)
    exec.Command(cmd)
}
"#;
    let f = run(src);
    assert_eq!(f.len(), 1);
    assert_eq!(f[0].sink_description, "exec.Command");
}

#[test]
fn fiber_ctx_body_to_exec() {
    let src = r#"
package main

import "os/exec"

func handler(c *fiber.Ctx) error {
    data := c.Body()
    exec.Command(string(data))
    return nil
}
"#;
    let f = run(src);
    assert_eq!(f.len(), 1);
    assert!(f[0].source_description.contains("fiber"));
}

#[test]
fn fiber_ctx_params_to_exec() {
    let src = r#"
package main

import "os/exec"

func handler(c *fiber.Ctx) error {
    id := c.Params("id")
    exec.Command(id)
    return nil
}
"#;
    let f = run(src);
    assert_eq!(f.len(), 1);
    assert!(f[0].source_description.contains("fiber"));
}

#[test]
fn chi_url_param_to_exec() {
    let src = r#"
package main

import (
    "net/http"
    "os/exec"
    "github.com/go-chi/chi/v5"
)

func handler(w http.ResponseWriter, r *http.Request) {
    slug := chi.URLParam(r, "slug")
    exec.Command(slug)
}
"#;
    let f = run(src);
    assert_eq!(f.len(), 1);
    assert!(f[0].source_description.contains("chi"));
}
