use agent_collaboration::analysis::{analyze_performance, analyze_security, analyze_structure, analyze_style};
use agent_collaboration::Json;

fn text<'a>(j: &'a Json, key: &str) -> &'a str {
    j.get(key).unwrap().as_str().unwrap()
}

fn num(j: &Json, key: &str) -> u64 {
    j.get(key).unwrap().as_u64().unwrap()
}

fn items<'a>(j: &'a Json, key: &str) -> &'a Vec<Json> {
    j.get(key).unwrap().as_array().unwrap()
}

#[test]
fn style_reports_mixed_indentation_and_todos() {
    let code = "fn main() {\n\tlet x = 1;\n    let y = 2; // TODO fix\n}\n";
    let report = analyze_style(code);
    assert_eq!(text(&report, "domain"), "style");
    assert_eq!(num(&report, "score"), 87);
    assert_eq!(text(&report, "summary"), "Style score: 87/100");
    let issues = items(&report, "issues");
    assert_eq!(issues.len(), 2);
    assert_eq!(text(&issues[0], "type"), "mixed_indentation");
    assert_eq!(text(&issues[1], "type"), "pending_todos");
    assert_eq!(num(&issues[1], "todo_count"), 1);
    assert_eq!(num(&issues[1], "fixme_count"), 0);
}

#[test]
fn style_measures_lines_in_bytes() {
    let ascii = "a".repeat(120);
    let accented = "é".repeat(60);
    let short = "é".repeat(50);
    let code = format!("{}\r\n{}\n{}\n", ascii, accented, short);
    let report = analyze_style(&code);
    let issues = items(&report, "issues");
    assert_eq!(issues.len(), 2);
    assert_eq!(text(&issues[0], "type"), "line_too_long");
    assert_eq!(num(&issues[0], "line"), 1);
    assert_eq!(num(&issues[0], "length"), 120);
    assert_eq!(num(&issues[1], "line"), 2);
    assert_eq!(num(&issues[1], "length"), 120);
    assert_eq!(num(&report, "score"), 96);
}

#[test]
fn clean_code_scores_full_marks() {
    let code = "fn add(a: i32, b: i32) -> i32 {\n    a + b\n}\n";
    assert_eq!(num(&analyze_style(code), "score"), 100);
    assert_eq!(num(&analyze_security(code), "score"), 100);
    assert_eq!(num(&analyze_performance(code), "score"), 100);
}

#[test]
fn security_reports_each_finding_in_order() {
    let code = "let password = \"x\";\nlet q = format!(\"SELECT * FROM t WHERE id = {}\", id);\nunsafe { foo() }\nx.unwrap(); y.unwrap();";
    let report = analyze_security(code);
    assert_eq!(text(&report, "domain"), "security");
    assert_eq!(num(&report, "score"), 30);
    assert_eq!(text(&report, "summary"), "Security score: 30/100");
    let v = items(&report, "vulnerabilities");
    let kinds: Vec<&str> = v.iter().map(|x| text(x, "type")).collect();
    assert_eq!(kinds, vec!["potential_sql_injection", "hardcoded_secret", "unsafe_block", "unwrap_usage"]);
    assert_eq!(text(&v[1], "pattern"), "password");
    assert_eq!(text(&v[1], "severity"), "critical");
    assert_eq!(num(&v[3], "count"), 2);
}

#[test]
fn security_matches_secrets_ignoring_case() {
    let report = analyze_security("const API_KEY=\"abc\"; let Token = 1;");
    let v = items(&report, "vulnerabilities");
    let patterns: Vec<&str> = v.iter().map(|x| text(x, "pattern")).collect();
    assert_eq!(patterns, vec!["api_key", "token"]);
    assert_eq!(num(&report, "score"), 40);
}

#[test]
fn performance_penalises_loops_clones_and_awaits() {
    let code = "for a in x { for b in y { v.clone(); } }\nlet s = String::from(\"a\"); fn f(x: &str) {}\nfor z in w { g().await; }";
    let report = analyze_performance(code);
    let kinds: Vec<&str> = items(&report, "issues").iter().map(|x| text(x, "type")).collect();
    assert_eq!(kinds, vec!["nested_loops", "clone_in_loop", "unnecessary_allocation", "sequential_async"]);
    assert_eq!(num(&report, "score"), 50);
    assert_eq!(text(&report, "summary"), "Performance score: 50/100");
}

#[test]
fn structure_counts_items_and_lines() {
    let code = "fn a() {}\nfn b() {}\nfn c() {}\nfn d() {}\nstruct S;\nimpl S {}\ntrait T {}\n";
    let report = analyze_structure(code);
    assert_eq!(text(&report, "domain"), "structure");
    assert_eq!(num(&report, "score"), 80);
    let m = report.get("metrics").unwrap();
    assert_eq!(num(m, "function_count"), 4);
    assert_eq!(num(m, "struct_count"), 1);
    assert_eq!(num(m, "impl_count"), 1);
    assert_eq!(num(m, "trait_count"), 1);
    assert_eq!(num(m, "lines_of_code"), 7);
    assert_eq!(m.get("has_documentation").unwrap().as_bool(), Some(false));
    assert_eq!(m.get("has_tests").unwrap().as_bool(), Some(false));
    assert_eq!(num(m, "avg_function_length"), 1);
    assert_eq!(text(&report, "summary"), "Structure: 4 functions, 1 structs, 7 LOC, docs: false, tests: false");
}

#[test]
fn structure_credits_docs_and_tests() {
    let code = "/// doc\nfn a() {}\n#[test]\nfn t() {}";
    let report = analyze_structure(code);
    assert_eq!(num(&report, "score"), 100);
    let m = report.get("metrics").unwrap();
    assert_eq!(num(m, "doc_comment_count"), 1);
    assert_eq!(num(m, "lines_of_code"), 4);
    assert_eq!(text(&report, "summary"), "Structure: 2 functions, 0 structs, 4 LOC, docs: true, tests: true");
}
