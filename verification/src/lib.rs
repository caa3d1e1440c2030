//! Verified core of a static taint and pattern scanner.
//!
//! Source text is parsed elsewhere; the library works on its own syntax-tree
//! type and reports findings whose exact content is stated in the contracts.
use vstd::prelude::*;

pub mod apex;
pub mod apex_flow_laws;
pub mod apex_taint;
pub mod bash;
pub mod bash_flow_laws;
pub mod bash_laws;
pub mod bash_taint;
pub mod c;
pub mod c_flow_laws;
pub mod c_laws;
pub mod c_taint;
pub mod clean_laws;
pub mod common;
pub mod compose_laws;
pub mod config;
pub mod config_laws;
pub mod context;
pub mod cross_file;
pub mod csharp;
pub mod csharp_flow_laws;
pub mod csharp_rule_laws;
pub mod csharp_taint;
pub mod finding;
pub mod generic_laws;
pub mod generic_mode;
pub mod go;
pub mod go_batching;
pub mod go_flow_laws;
pub mod go_laws;
pub mod go_rule_laws;
pub mod go_summary_laws;
pub mod go_taint;
pub mod java;
pub mod java_flow_laws;
pub mod java_rule_laws;
pub mod java_taint;
pub mod parameter_laws;
pub mod pattern;
pub mod report_laws;
pub mod rule_laws;
pub mod scope;
pub mod scope_flow_laws;
pub mod scope_laws;
pub mod sink_laws;
pub mod table_laws;
pub mod taint_engine;
pub mod taint_rule;
pub mod text;
pub mod text_laws;
pub mod text_map;
pub mod tree;
pub mod tree_laws;

verus! {

} // verus!
