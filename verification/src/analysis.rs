//! Heuristic code analysis by style, security, performance and structure.
//! Each analysis scores the code out of 100 and lists what it found, as JSON.

use vstd::prelude::*;
use crate::json::Json;
use crate::scan::{count_matches, count_str, line_sizes, lines_of, utf8_size};
use crate::text::{chars_of, contains_seq, decimal, lowercase, str_contains, to_lowercase, u64_to_string};

verus! {

/// Something an analysis found.
pub enum Finding {
    LongLine { line: nat, length: nat },
    InconsistentNaming,
    MixedIndentation,
    PendingTodos { todo: nat, fixme: nat },
    SqlInjection,
    HardcodedSecret { pattern: Seq<char> },
    UnsafeBlock,
    UnwrapUsage { count: nat },
    NestedLoops,
    CloneInLoop,
    UnnecessaryAllocation,
    SequentialAsync,
}

impl Finding {
    /// The finding's `type`.
    pub open spec fn kind(self) -> Seq<char> {
        match self {
            Finding::LongLine { .. } => "line_too_long"@,
            Finding::InconsistentNaming => "inconsistent_naming"@,
            Finding::MixedIndentation => "mixed_indentation"@,
            Finding::PendingTodos { .. } => "pending_todos"@,
            Finding::SqlInjection => "potential_sql_injection"@,
            Finding::HardcodedSecret { .. } => "hardcoded_secret"@,
            Finding::UnsafeBlock => "unsafe_block"@,
            Finding::UnwrapUsage { .. } => "unwrap_usage"@,
            Finding::NestedLoops => "nested_loops"@,
            Finding::CloneInLoop => "clone_in_loop"@,
            Finding::UnnecessaryAllocation => "unnecessary_allocation"@,
            Finding::SequentialAsync => "sequential_async"@,
        }
    }

    /// The finding's `severity`, where it has one.
    pub open spec fn severity(self) -> Option<Seq<char>> {
        match self {
            Finding::SqlInjection => Some("high"@),
            Finding::HardcodedSecret { .. } => Some("critical"@),
            Finding::UnsafeBlock => Some("medium"@),
            Finding::UnwrapUsage { .. } => Some("low"@),
            Finding::NestedLoops => Some("medium"@),
            Finding::CloneInLoop => Some("medium"@),
            Finding::UnnecessaryAllocation => Some("low"@),
            Finding::SequentialAsync => Some("high"@),
            _ => None,
        }
    }

    /// The finding's `suggestion`.
    pub open spec fn suggestion(self) -> Seq<char> {
        match self {
            Finding::LongLine { .. } => "Consider breaking long lines for better readability"@,
            Finding::InconsistentNaming => "Use consistent naming convention (either snake_case or camelCase)"@,
            Finding::MixedIndentation => "Use consistent indentation (tabs or spaces, not both)"@,
            Finding::PendingTodos { .. } => "Consider resolving pending TODO/FIXME items"@,
            Finding::SqlInjection => "Use parameterized queries instead of string formatting"@,
            Finding::HardcodedSecret { .. } => "Move secrets to environment variables or secure storage"@,
            Finding::UnsafeBlock => "Review unsafe blocks for potential memory safety issues"@,
            Finding::UnwrapUsage { .. } => "Consider using proper error handling instead of unwrap()"@,
            Finding::NestedLoops => "Consider optimizing nested loops or using more efficient algorithms"@,
            Finding::CloneInLoop => "Consider using references instead of cloning inside loops"@,
            Finding::UnnecessaryAllocation => "Consider using &str where possible to avoid allocations"@,
            Finding::SequentialAsync => "Consider using futures::join! or concurrent execution"@,
        }
    }
}

/// `j` has no members but `a` and `b`.
pub open spec fn only_keys2(j: Json, a: Seq<char>, b: Seq<char>) -> bool {
    forall|k: Seq<char>| k != a && k != b ==> #[trigger] j.spec_get(k) is None
}

/// `j` has no members but `a`, `b` and `c`.
pub open spec fn only_keys3(j: Json, a: Seq<char>, b: Seq<char>, c: Seq<char>) -> bool {
    forall|k: Seq<char>| k != a && k != b && k != c ==> #[trigger] j.spec_get(k) is None
}

/// `j` has no members but `a`, `b`, `c` and `d`.
pub open spec fn only_keys4(j: Json, a: Seq<char>, b: Seq<char>, c: Seq<char>, d: Seq<char>) -> bool {
    forall|k: Seq<char>| k != a && k != b && k != c && k != d ==> #[trigger] j.spec_get(k) is None
}

/// The JSON number `n`.
pub open spec fn num(n: nat) -> Json {
    Json::UInt(n as u64)
}

/// `j` is the JSON object that reports the finding `f`: its `type`, its
/// `severity` where it has one, what it counts, and its `suggestion`.
pub open spec fn finding_json(j: Json, f: Finding) -> bool {
    &&& j is Object
    &&& j.text_at("type"@) == Some(f.kind())
    &&& j.text_at("suggestion"@) == Some(f.suggestion())
    &&& match f.severity() {
        Some(s) => j.text_at("severity"@) == Some(s),
        None => true,
    }
    &&& match f {
        Finding::LongLine { line, length } => j.spec_get("line"@) == Some(num(line))
            && j.spec_get("length"@) == Some(num(length))
            && only_keys4(j, "type"@, "line"@, "length"@, "suggestion"@),
        Finding::PendingTodos { todo, fixme } => j.spec_get("todo_count"@) == Some(num(todo))
            && j.spec_get("fixme_count"@) == Some(num(fixme))
            && only_keys4(j, "type"@, "todo_count"@, "fixme_count"@, "suggestion"@),
        Finding::HardcodedSecret { pattern } => j.text_at("pattern"@) == Some(pattern)
            && only_keys4(j, "type"@, "severity"@, "pattern"@, "suggestion"@),
        Finding::UnwrapUsage { count } => j.spec_get("count"@) == Some(num(count))
            && only_keys4(j, "type"@, "severity"@, "count"@, "suggestion"@),
        Finding::InconsistentNaming | Finding::MixedIndentation => only_keys2(j, "type"@, "suggestion"@),
        _ => only_keys3(j, "type"@, "severity"@, "suggestion"@),
    }
}

/// `items` report `findings`, one by one.
pub open spec fn findings_json(items: Seq<Json>, findings: Seq<Finding>) -> bool {
    &&& items.len() == findings.len()
    &&& forall|i: int| 0 <= i < findings.len() ==> finding_json(#[trigger] items[i], findings[i])
}

/// `j` is an analysis report: `domain`, `score`, the findings under
/// `list_key`, and `summary`.
pub open spec fn report_json(
    j: Json,
    domain: Seq<char>,
    score: u32,
    list_key: Seq<char>,
    findings: Seq<Finding>,
    summary: Seq<char>,
) -> bool {
    &&& j is Object
    &&& j.text_at("domain"@) == Some(domain)
    &&& j.spec_get("score"@) == Some(Json::UInt(score as u64))
    &&& j.spec_get(list_key) matches Some(a) && a.spec_as_array() matches Some(items) && findings_json(items, findings)
    &&& j.text_at("summary"@) == Some(summary)
    &&& only_keys4(j, "domain"@, "score"@, list_key, "summary"@)
}

/// A score of 100 less `penalty`, not below 0.
pub open spec fn penalized(penalty: nat) -> u32 {
    if penalty >= 100 { 0 } else { (100 - penalty) as u32 }
}

/// `"<label> score: <score>/100"`.
pub open spec fn score_summary(label: Seq<char>, score: u32) -> Seq<char> {
    label + " score: "@ + decimal(score as nat) + "/100"@
}

/// The byte length of each line of `code`.
pub open spec fn line_size_seq(code: Seq<char>) -> Seq<nat> {
    Seq::new(lines_of(code).len(), |k: int| utf8_size(lines_of(code)[k]))
}

/// The lines longer than 100 bytes among the first lines of the given sizes.
pub open spec fn long_lines(sizes: Seq<nat>) -> Seq<Finding>
    decreases sizes.len(),
{
    if sizes.len() == 0 {
        Seq::empty()
    } else {
        let rest = long_lines(sizes.drop_last());
        if sizes.last() > 100 {
            rest.push(Finding::LongLine { line: sizes.len(), length: sizes.last() })
        } else {
            rest
        }
    }
}

/// `f` as a one-element list where `b` holds, else an empty one.
pub open spec fn when(b: bool, f: Finding) -> Seq<Finding> {
    if b { seq![f] } else { Seq::empty() }
}

pub open spec fn style_naming(code: Seq<char>) -> bool {
    contains_seq(code, "_"@) && contains_seq(code, "camelCase"@)
}

pub open spec fn style_mixed(code: Seq<char>) -> bool {
    contains_seq(code, "\t"@) && contains_seq(code, "    "@)
}

pub open spec fn style_todos(code: Seq<char>) -> bool {
    count_matches(code, "TODO"@) > 0 || count_matches(code, "FIXME"@) > 0
}

/// What the style analysis finds: long lines, mixed naming, mixed
/// indentation, and pending TODO/FIXME notes.
pub open spec fn style_findings(code: Seq<char>) -> Seq<Finding> {
    long_lines(line_size_seq(code))
        + when(style_naming(code), Finding::InconsistentNaming)
        + when(style_mixed(code), Finding::MixedIndentation)
        + when(style_todos(code), Finding::PendingTodos {
            todo: count_matches(code, "TODO"@),
            fixme: count_matches(code, "FIXME"@),
        })
}

/// The style score: 2 off per long line, 5 for mixed naming, 10 for mixed
/// indentation, 3 for pending notes.
pub open spec fn style_score(code: Seq<char>) -> u32 {
    penalized(2 * long_lines(line_size_seq(code)).len()
        + (if style_naming(code) { 5nat } else { 0 })
        + (if style_mixed(code) { 10nat } else { 0 })
        + (if style_todos(code) { 3nat } else { 0 }))
}

/// `score` less `d`, not below 0.
fn less(score: u32, d: u32) -> (r: u32)
    ensures
        r == if score >= d { (score - d) as u32 } else { 0 },
{
    score.saturating_sub(d)
}

/// The JSON string `s`.
fn text_json(s: &str) -> (j: Json)
    ensures
        j.spec_as_str() == Some(s@),
{
    Json::Str(String::from_str(s))
}

/// `{"type": kind, "suggestion": suggestion}`.
fn finding2(kind: &str, suggestion: &str) -> (j: Json)
    ensures
        j is Object,
        j.text_at("type"@) == Some(kind@),
        j.text_at("suggestion"@) == Some(suggestion@),
        only_keys2(j, "type"@, "suggestion"@),
{
    proof {
        reveal_strlit("type");
        reveal_strlit("suggestion");
        assert("type"@.len() != "suggestion"@.len());
    }
    Json::object2("type", text_json(kind), "suggestion", text_json(suggestion))
}

/// `{"type": kind, "severity": severity, "suggestion": suggestion}`.
fn finding3(kind: &str, severity: &str, suggestion: &str) -> (j: Json)
    ensures
        j is Object,
        j.text_at("type"@) == Some(kind@),
        j.text_at("severity"@) == Some(severity@),
        j.text_at("suggestion"@) == Some(suggestion@),
        only_keys3(j, "type"@, "severity"@, "suggestion"@),
{
    proof {
        reveal_strlit("type");
        reveal_strlit("severity");
        reveal_strlit("suggestion");
        assert("type"@.len() != "suggestion"@.len());
        assert("type"@.len() != "severity"@.len());
        assert("severity"@.len() != "suggestion"@.len());
    }
    Json::object3("type", text_json(kind), "severity", text_json(severity), "suggestion", text_json(suggestion))
}

/// `{"type": kind, k1: v1, k2: v2, "suggestion": suggestion}`.
fn finding4(kind: &str, k1: &str, v1: Json, k2: &str, v2: Json, suggestion: &str) -> (j: Json)
    requires
        k1@ != "type"@,
        k1@ != "suggestion"@,
        k2@ != "type"@,
        k2@ != "suggestion"@,
        k1@ != k2@,
    ensures
        j is Object,
        j.text_at("type"@) == Some(kind@),
        j.spec_get(k1@) == Some(v1),
        j.spec_get(k2@) == Some(v2),
        j.text_at("suggestion"@) == Some(suggestion@),
        only_keys4(j, "type"@, k1@, k2@, "suggestion"@),
{
    proof {
        reveal_strlit("type");
        reveal_strlit("suggestion");
        assert("type"@.len() != "suggestion"@.len());
    }
    Json::object4("type", text_json(kind), k1, v1, k2, v2, "suggestion", text_json(suggestion))
}

/// `{"domain", "score", list_key: items, "summary"}`.
fn report(domain: &str, score: u32, list_key: &str, items: Json, summary: String) -> (j: Json)
    requires
        list_key@ != "domain"@,
        list_key@ != "score"@,
        list_key@ != "summary"@,
    ensures
        j is Object,
        j.text_at("domain"@) == Some(domain@),
        j.spec_get("score"@) == Some(Json::UInt(score as u64)),
        j.spec_get(list_key@) == Some(items),
        j.text_at("summary"@) == Some(summary@),
        only_keys4(j, "domain"@, "score"@, list_key@, "summary"@),
{
    proof {
        reveal_strlit("domain");
        reveal_strlit("score");
        reveal_strlit("summary");
        assert("domain"@.len() != "score"@.len());
        assert("domain"@.len() != "summary"@.len());
        assert("score"@.len() != "summary"@.len());
    }
    Json::object4("domain", text_json(domain), "score", Json::UInt(score as u64), list_key, items,
        "summary", Json::Str(summary))
}

/// `"<label> score: <score>/100"`.
fn summary_text(label: &str, score: u32) -> (s: String)
    ensures
        s@ == score_summary(label@, score),
{
    let n = u64_to_string(score as u64);
    String::from_str(label).concat(" score: ").concat(n.as_str()).concat("/100")
}

/// Reviews style: lines over 100 bytes, a mix of snake_case and camelCase,
/// a mix of tab and space indentation, and TODO/FIXME notes.
pub fn analyze_style(code: &str) -> (j: Json)
    requires
        utf8_size(code@) <= usize::MAX,
    ensures
        report_json(j, "style"@, style_score(code@), "issues"@, style_findings(code@),
            score_summary("Style"@, style_score(code@))),
{
    let chars = chars_of(code);
    let sizes = line_sizes(&chars);
    let ghost sz = line_size_seq(code@);
    let mut issues: Vec<Json> = Vec::new();
    let mut score: u32 = 100;
    let mut k: usize = 0;
    proof {
        reveal_strlit("line");
        reveal_strlit("length");
        reveal_strlit("type");
        reveal_strlit("suggestion");
        assert("line"@[0] != "type"@[0]);
        assert("length"@.len() != "type"@.len());
        assert("line"@.len() != "suggestion"@.len());
        assert("length"@.len() != "suggestion"@.len());
        assert("line"@.len() != "length"@.len());
        assert(sz.take(0) =~= Seq::<nat>::empty());
    }
    while k < sizes.len()
        invariant
            chars@ == code@,
            sz == line_size_seq(code@),
            sizes@.len() == sz.len(),
            forall|t: int| 0 <= t < sizes@.len() ==> #[trigger] sizes@[t] == sz[t],
            k <= sizes@.len(),
            "line"@ != "type"@,
            "length"@ != "type"@,
            "line"@ != "suggestion"@,
            "length"@ != "suggestion"@,
            "line"@ != "length"@,
            findings_json(issues@, long_lines(sz.take(k as int))),
            score == penalized(2 * long_lines(sz.take(k as int)).len()),
        decreases sizes@.len() - k,
    {
        let size = sizes[k];
        proof {
            assert(sz.take(k + 1).drop_last() =~= sz.take(k as int));
            assert(sz.take(k + 1).last() == size);
        }
        if size > 100 {
            let item = finding4(
                "line_too_long",
                "line", Json::UInt((k + 1) as u64),
                "length", Json::UInt(size as u64),
                "Consider breaking long lines for better readability",
            );
            issues.push(item);
            score = less(score, 2);
        }
        k = k + 1;
    }
    proof {
        assert(sz.take(sizes@.len() as int) =~= sz);
    }
    let ghost base = long_lines(sz);
    if str_contains(code, "_") && str_contains(code, "camelCase") {
        issues.push(finding2("inconsistent_naming", "Use consistent naming convention (either snake_case or camelCase)"));
        score = less(score, 5);
    }
    let ghost after_naming = base + when(style_naming(code@), Finding::InconsistentNaming);
    if str_contains(code, "\t") && str_contains(code, "    ") {
        issues.push(finding2("mixed_indentation", "Use consistent indentation (tabs or spaces, not both)"));
        score = less(score, 10);
    }
    let ghost after_mixed = after_naming + when(style_mixed(code@), Finding::MixedIndentation);
    proof {
        reveal_strlit("TODO");
        reveal_strlit("FIXME");
    }
    let todo_count = count_str(&chars, "TODO");
    let fixme_count = count_str(&chars, "FIXME");
    if todo_count > 0 || fixme_count > 0 {
        proof {
            reveal_strlit("todo_count");
            reveal_strlit("fixme_count");
            assert("todo_count"@.len() != "type"@.len());
            assert("fixme_count"@.len() != "type"@.len());
            assert("todo_count"@[0] != "suggestion"@[0]);
            assert("fixme_count"@.len() != "suggestion"@.len());
            assert("todo_count"@.len() != "fixme_count"@.len());
        }
        issues.push(finding4(
            "pending_todos",
            "todo_count", Json::UInt(todo_count as u64),
            "fixme_count", Json::UInt(fixme_count as u64),
            "Consider resolving pending TODO/FIXME items",
        ));
        score = less(score, 3);
    }
    proof {
        reveal_strlit("issues");
        reveal_strlit("domain");
        reveal_strlit("score");
        reveal_strlit("summary");
        assert("issues"@[0] != "domain"@[0]);
        assert("issues"@.len() != "score"@.len());
        assert("issues"@.len() != "summary"@.len());
        assert(style_findings(code@) =~= after_mixed + when(style_todos(code@), Finding::PendingTodos {
            todo: count_matches(code@, "TODO"@),
            fixme: count_matches(code@, "FIXME"@),
        }));
    }
    let summary = summary_text("Style", score);
    report("style", score, "issues", Json::Array(issues), summary)
}

/// The lower-cased code assigns a literal to something named `p`.
pub open spec fn secret_hit(lower: Seq<char>, p: Seq<char>) -> bool {
    contains_seq(lower, p + " ="@) || contains_seq(lower, p + "=\""@)
}

/// The hard-coded secrets found in the lower-cased code, pattern by pattern.
pub open spec fn secret_findings(lower: Seq<char>) -> Seq<Finding> {
    when(secret_hit(lower, "password"@), Finding::HardcodedSecret { pattern: "password"@ })
        + when(secret_hit(lower, "api_key"@), Finding::HardcodedSecret { pattern: "api_key"@ })
        + when(secret_hit(lower, "secret"@), Finding::HardcodedSecret { pattern: "secret"@ })
        + when(secret_hit(lower, "token"@), Finding::HardcodedSecret { pattern: "token"@ })
}

pub open spec fn security_sql(code: Seq<char>) -> bool {
    contains_seq(code, "format!"@) && contains_seq(code, "SELECT"@)
}

pub open spec fn unwraps(code: Seq<char>) -> nat {
    count_matches(code, ".unwrap()"@)
}

/// What the security analysis finds: SQL built by formatting, hard-coded
/// secrets, `unsafe`, and calls of `unwrap()`.
pub open spec fn security_findings(code: Seq<char>) -> Seq<Finding> {
    when(security_sql(code), Finding::SqlInjection)
        + secret_findings(lowercase(code))
        + when(contains_seq(code, "unsafe"@), Finding::UnsafeBlock)
        + when(unwraps(code) > 0, Finding::UnwrapUsage { count: unwraps(code) })
}

/// The lesser of `a` and `b`.
pub open spec fn min_nat(a: nat, b: nat) -> nat {
    if a <= b { a } else { b }
}

/// The security score: 20 off for formatted SQL, 30 per hard-coded secret,
/// 10 for `unsafe`, 5 per `unwrap()` up to three.
pub open spec fn security_score(code: Seq<char>) -> u32 {
    penalized((if security_sql(code) { 20nat } else { 0 })
        + 30 * secret_findings(lowercase(code)).len()
        + (if contains_seq(code, "unsafe"@) { 10nat } else { 0 })
        + 5 * min_nat(unwraps(code), 3))
}

/// Whether the lower-cased code assigns a literal to something named `pattern`.
fn secret_check(lower: &String, pattern: &str) -> (hit: bool)
    ensures
        hit == secret_hit(lower@, pattern@),
{
    let a = String::from_str(pattern).concat(" =");
    let b = String::from_str(pattern).concat("=\"");
    str_contains(lower.as_str(), a.as_str()) || str_contains(lower.as_str(), b.as_str())
}

/// `items` report `found`, and `item` reports `f`: together they report both.
pub proof fn lemma_findings_push(items: Seq<Json>, found: Seq<Finding>, item: Json, f: Finding)
    requires
        findings_json(items, found),
        finding_json(item, f),
    ensures
        findings_json(items.push(item), found.push(f)),
{
    assert forall|i: int| 0 <= i < found.push(f).len() implies
        finding_json(#[trigger] items.push(item)[i], found.push(f)[i]) by {
        if i < found.len() {
            assert(items.push(item)[i] == items[i]);
        }
    }
}

/// The finding for `pattern` where the lower-cased code hits it.
pub open spec fn secret_finding(lower: Seq<char>, pattern: Seq<char>) -> Seq<Finding> {
    when(secret_hit(lower, pattern), Finding::HardcodedSecret { pattern })
}

/// Checks the lower-cased code for one secret pattern, reporting a hit.
fn secret_step(lower: &String, pattern: &str, issues: &mut Vec<Json>, score: &mut u32,
    Ghost(found): Ghost<Seq<Finding>>, Ghost(penalty): Ghost<nat>)
    requires
        findings_json(old(issues)@, found),
        *old(score) == penalized(penalty),
    ensures
        findings_json(final(issues)@, found + secret_finding(lower@, pattern@)),
        *final(score) == penalized(penalty + 30 * secret_finding(lower@, pattern@).len()),
{
    let hit = secret_check(lower, pattern);
    if hit {
        proof {
            reveal_strlit("severity");
            reveal_strlit("pattern");
            reveal_strlit("type");
            reveal_strlit("suggestion");
            assert("severity"@.len() != "type"@.len());
            assert("pattern"@.len() != "type"@.len());
            assert("severity"@.len() != "suggestion"@.len());
            assert("pattern"@.len() != "suggestion"@.len());
            assert("severity"@.len() != "pattern"@.len());
        }
        let item = finding4(
            "hardcoded_secret",
            "severity", text_json("critical"),
            "pattern", text_json(pattern),
            "Move secrets to environment variables or secure storage",
        );
        let ghost before = issues@;
        proof {
            lemma_findings_push(before, found, item, Finding::HardcodedSecret { pattern: pattern@ });
            assert(found + secret_finding(lower@, pattern@) =~= found.push(Finding::HardcodedSecret { pattern: pattern@ }));
        }
        issues.push(item);
        *score = less(*score, 30);
    } else {
        proof {
            assert(found + secret_finding(lower@, pattern@) =~= found);
        }
    }
}

/// Checks the lower-cased code for each secret pattern in turn.
fn secret_part(lower: &String, issues: &mut Vec<Json>, score: &mut u32, Ghost(found): Ghost<Seq<Finding>>,
    Ghost(penalty): Ghost<nat>)
    requires
        findings_json(old(issues)@, found),
        *old(score) == penalized(penalty),
    ensures
        findings_json(final(issues)@, found + secret_findings(lower@)),
        *final(score) == penalized(penalty + 30 * secret_findings(lower@).len()),
{
    let ghost l = lower@;
    let ghost f1 = found + secret_finding(l, "password"@);
    let ghost p1 = penalty + 30 * secret_finding(l, "password"@).len();
    secret_step(lower, "password", issues, score, Ghost(found), Ghost(penalty));
    let ghost f2 = f1 + secret_finding(l, "api_key"@);
    let ghost p2 = p1 + 30 * secret_finding(l, "api_key"@).len();
    secret_step(lower, "api_key", issues, score, Ghost(f1), Ghost(p1));
    let ghost f3 = f2 + secret_finding(l, "secret"@);
    let ghost p3 = p2 + 30 * secret_finding(l, "secret"@).len();
    secret_step(lower, "secret", issues, score, Ghost(f2), Ghost(p2));
    secret_step(lower, "token", issues, score, Ghost(f3), Ghost(p3));
    proof {
        assert(f3 + secret_finding(l, "token"@) =~= found + secret_findings(l));
    }
}

/// Reviews security: SQL built with `format!`, hard-coded passwords, keys,
/// secrets and tokens, `unsafe`, and calls of `unwrap()`.
pub fn analyze_security(code: &str) -> (j: Json)
    ensures
        report_json(j, "security"@, security_score(code@), "vulnerabilities"@, security_findings(code@),
            score_summary("Security"@, security_score(code@))),
{
    let chars = chars_of(code);
    let mut issues: Vec<Json> = Vec::new();
    let mut score: u32 = 100;
    let ghost mut found: Seq<Finding> = Seq::empty();
    let ghost mut penalty: nat = 0;
    if str_contains(code, "format!") && str_contains(code, "SELECT") {
        let item = finding3("potential_sql_injection", "high", "Use parameterized queries instead of string formatting");
        proof {
            lemma_findings_push(issues@, found, item, Finding::SqlInjection);
            assert(found.push(Finding::SqlInjection) =~= seq![Finding::SqlInjection]);
        }
        issues.push(item);
        score = less(score, 20);
        proof {
            found = seq![Finding::SqlInjection];
            penalty = 20;
        }
    }
    proof {
        assert(found =~= when(security_sql(code@), Finding::SqlInjection));
        assert(findings_json(issues@, found));
        assert(score == penalized(penalty));
    }
    let lower = to_lowercase(code);
    secret_part(&lower, &mut issues, &mut score, Ghost(found), Ghost(penalty));
    proof {
        found = found + secret_findings(lowercase(code@));
        penalty = penalty + 30 * secret_findings(lowercase(code@)).len();
    }
    if str_contains(code, "unsafe") {
        let item = finding3("unsafe_block", "medium", "Review unsafe blocks for potential memory safety issues");
        proof {
            lemma_findings_push(issues@, found, item, Finding::UnsafeBlock);
        }
        issues.push(item);
        score = less(score, 10);
        proof {
            found = found.push(Finding::UnsafeBlock);
            penalty = penalty + 10;
        }
    }
    proof {
        reveal_strlit(".unwrap()");
    }
    let unwrap_count = count_str(&chars, ".unwrap()");
    if unwrap_count > 0 {
        proof {
            reveal_strlit("severity");
            reveal_strlit("count");
            reveal_strlit("type");
            reveal_strlit("suggestion");
            assert("severity"@.len() != "type"@.len());
            assert("count"@.len() != "type"@.len());
            assert("severity"@.len() != "suggestion"@.len());
            assert("count"@.len() != "suggestion"@.len());
            assert("severity"@.len() != "count"@.len());
        }
        let item = finding4(
            "unwrap_usage",
            "severity", text_json("low"),
            "count", Json::UInt(unwrap_count as u64),
            "Consider using proper error handling instead of unwrap()",
        );
        proof {
            lemma_findings_push(issues@, found, item, Finding::UnwrapUsage { count: unwraps(code@) });
        }
        issues.push(item);
        let capped: u32 = if unwrap_count < 3 { unwrap_count as u32 } else { 3 };
        score = less(score, 5 * capped);
        proof {
            found = found.push(Finding::UnwrapUsage { count: unwraps(code@) });
            penalty = penalty + 5 * min_nat(unwraps(code@), 3);
        }
    }
    proof {
        reveal_strlit("vulnerabilities");
        reveal_strlit("domain");
        reveal_strlit("score");
        reveal_strlit("summary");
        assert("vulnerabilities"@.len() != "domain"@.len());
        assert("vulnerabilities"@.len() != "score"@.len());
        assert("vulnerabilities"@.len() != "summary"@.len());
        assert(found =~= security_findings(code@));
    }
    let summary = summary_text("Security", score);
    report("security", score, "vulnerabilities", Json::Array(issues), summary)
}

/// Pairs of `for` loops, counted as nested loops.
pub open spec fn nested_loops(code: Seq<char>) -> nat {
    count_matches(code, "for"@) / 2
}

pub open spec fn perf_clone(code: Seq<char>) -> bool {
    contains_seq(code, "for"@) && contains_seq(code, ".clone()"@)
}

pub open spec fn perf_alloc(code: Seq<char>) -> bool {
    contains_seq(code, "String::from("@) && contains_seq(code, "&str"@)
}

pub open spec fn perf_async(code: Seq<char>) -> bool {
    contains_seq(code, "for"@) && contains_seq(code, ".await"@)
}

/// What the performance analysis finds: nested loops, clones and awaits
/// in loops, and allocations where a `&str` would do.
pub open spec fn performance_findings(code: Seq<char>) -> Seq<Finding> {
    when(nested_loops(code) > 0, Finding::NestedLoops)
        + when(perf_clone(code), Finding::CloneInLoop)
        + when(perf_alloc(code), Finding::UnnecessaryAllocation)
        + when(perf_async(code), Finding::SequentialAsync)
}

/// The performance score: 10 off per pair of loops up to three, 15 for
/// clones in loops, 5 for allocations, 20 for awaits in loops.
pub open spec fn performance_score(code: Seq<char>) -> u32 {
    penalized(10 * min_nat(nested_loops(code), 3)
        + (if perf_clone(code) { 15nat } else { 0 })
        + (if perf_alloc(code) { 5nat } else { 0 })
        + (if perf_async(code) { 20nat } else { 0 }))
}

/// Appends the finding with `severity` when `hit`.
fn severity_step(hit: bool, f: Ghost<Finding>, kind: &str, severity: &str, suggestion: &str, cost: u32,
    issues: &mut Vec<Json>, score: &mut u32, Ghost(found): Ghost<Seq<Finding>>, Ghost(penalty): Ghost<nat>)
    requires
        findings_json(old(issues)@, found),
        *old(score) == penalized(penalty),
        f@.kind() == kind@,
        f@.severity() == Some(severity@),
        f@.suggestion() == suggestion@,
        !(f@ is LongLine || f@ is PendingTodos || f@ is HardcodedSecret || f@ is UnwrapUsage
            || f@ is InconsistentNaming || f@ is MixedIndentation),
    ensures
        findings_json(final(issues)@, found + when(hit, f@)),
        *final(score) == penalized(penalty + if hit { cost as nat } else { 0 }),
{
    if hit {
        let item = finding3(kind, severity, suggestion);
        proof {
            lemma_findings_push(issues@, found, item, f@);
            assert(found + when(hit, f@) =~= found.push(f@));
        }
        issues.push(item);
        *score = less(*score, cost);
    } else {
        proof {
            assert(found + when(hit, f@) =~= found);
        }
    }
}

/// Reviews performance: nested loops, `clone()` and `.await` inside loops,
/// and `String::from` beside `&str`.
pub fn analyze_performance(code: &str) -> (j: Json)
    ensures
        report_json(j, "performance"@, performance_score(code@), "issues"@, performance_findings(code@),
            score_summary("Performance"@, performance_score(code@))),
{
    let chars = chars_of(code);
    let mut issues: Vec<Json> = Vec::new();
    let mut score: u32 = 100;
    proof {
        reveal_strlit("for");
    }
    let loops = count_str(&chars, "for") / 2;
    let capped: u32 = if loops < 3 { loops as u32 } else { 3 };
    let ghost f0 = Seq::<Finding>::empty();
    severity_step(loops > 0, Ghost(Finding::NestedLoops), "nested_loops", "medium",
        "Consider optimizing nested loops or using more efficient algorithms", 10 * capped,
        &mut issues, &mut score, Ghost(f0), Ghost(0));
    let ghost f1 = f0 + when(nested_loops(code@) > 0, Finding::NestedLoops);
    let ghost p1 = if loops > 0 { (10 * capped) as nat } else { 0nat };
    let has_for = str_contains(code, "for");
    let clone = has_for && str_contains(code, ".clone()");
    severity_step(clone, Ghost(Finding::CloneInLoop), "clone_in_loop", "medium",
        "Consider using references instead of cloning inside loops", 15,
        &mut issues, &mut score, Ghost(f1), Ghost(p1));
    let ghost f2 = f1 + when(perf_clone(code@), Finding::CloneInLoop);
    let ghost p2 = p1 + if clone { 15nat } else { 0 };
    let alloc = str_contains(code, "String::from(") && str_contains(code, "&str");
    severity_step(alloc, Ghost(Finding::UnnecessaryAllocation), "unnecessary_allocation", "low",
        "Consider using &str where possible to avoid allocations", 5,
        &mut issues, &mut score, Ghost(f2), Ghost(p2));
    let ghost f3 = f2 + when(perf_alloc(code@), Finding::UnnecessaryAllocation);
    let ghost p3 = p2 + if alloc { 5nat } else { 0 };
    let awaits = has_for && str_contains(code, ".await");
    severity_step(awaits, Ghost(Finding::SequentialAsync), "sequential_async", "high",
        "Consider using futures::join! or concurrent execution", 20,
        &mut issues, &mut score, Ghost(f3), Ghost(p3));
    proof {
        reveal_strlit("issues");
        reveal_strlit("domain");
        reveal_strlit("score");
        reveal_strlit("summary");
        assert("issues"@[0] != "domain"@[0]);
        assert("issues"@.len() != "score"@.len());
        assert("issues"@.len() != "summary"@.len());
        assert(f3 + when(perf_async(code@), Finding::SequentialAsync) =~= performance_findings(code@));
    }
    let summary = summary_text("Performance", score);
    report("performance", score, "issues", Json::Array(issues), summary)
}

/// `"true"` or `"false"`.
pub open spec fn bool_text(b: bool) -> Seq<char> {
    if b { "true"@ } else { "false"@ }
}

/// The structure analysis's counts.
pub struct Structure {
    pub functions: nat,
    pub structs: nat,
    pub impls: nat,
    pub traits: nat,
    pub lines: nat,
    pub doc_comments: nat,
    pub has_tests: bool,
}

/// What the structure analysis counts in `code`.
pub open spec fn structure_of(code: Seq<char>) -> Structure {
    Structure {
        functions: count_matches(code, "fn "@),
        structs: count_matches(code, "struct "@),
        impls: count_matches(code, "impl "@),
        traits: count_matches(code, "trait "@),
        lines: lines_of(code).len(),
        doc_comments: count_matches(code, "///"@),
        has_tests: contains_seq(code, "#[test]"@),
    }
}

/// Lines per function, 0 without functions.
pub open spec fn avg_function_length(s: Structure) -> nat {
    if s.functions > 0 { s.lines / s.functions } else { 0 }
}

/// The structure score: 10 off for missing documentation and 10 for
/// missing tests where there are more than three functions, 15 for an
/// average function over 50 lines.
pub open spec fn structure_score(s: Structure) -> u32 {
    penalized((if s.doc_comments == 0 && s.functions > 3 { 10nat } else { 0 })
        + (if !s.has_tests && s.functions > 3 { 10nat } else { 0 })
        + (if avg_function_length(s) > 50 { 15nat } else { 0 }))
}

/// `m` holds the structure counts.
pub open spec fn metrics_json(m: Json, s: Structure) -> bool {
    &&& m is Object
    &&& m.spec_get("function_count"@) == Some(num(s.functions))
    &&& m.spec_get("struct_count"@) == Some(num(s.structs))
    &&& m.spec_get("impl_count"@) == Some(num(s.impls))
    &&& m.spec_get("trait_count"@) == Some(num(s.traits))
    &&& m.spec_get("lines_of_code"@) == Some(num(s.lines))
    &&& m.spec_get("has_documentation"@) == Some(Json::Bool(s.doc_comments > 0))
    &&& m.spec_get("doc_comment_count"@) == Some(num(s.doc_comments))
    &&& m.spec_get("has_tests"@) == Some(Json::Bool(s.has_tests))
    &&& m.spec_get("avg_function_length"@) == Some(num(avg_function_length(s)))
    &&& forall|k: Seq<char>| k != "function_count"@ && k != "struct_count"@ && k != "impl_count"@
        && k != "trait_count"@ && k != "lines_of_code"@ && k != "has_documentation"@
        && k != "doc_comment_count"@ && k != "has_tests"@ && k != "avg_function_length"@
        ==> #[trigger] m.spec_get(k) is None
}

/// The structure summary line.
pub open spec fn structure_summary(s: Structure) -> Seq<char> {
    "Structure: "@ + decimal(s.functions) + " functions, "@ + decimal(s.structs) + " structs, "@
        + decimal(s.lines) + " LOC, docs: "@ + bool_text(s.doc_comments > 0) + ", tests: "@
        + bool_text(s.has_tests)
}

/// `j` is a structure report.
pub open spec fn structure_json(j: Json, s: Structure) -> bool {
    &&& j is Object
    &&& j.text_at("domain"@) == Some("structure"@)
    &&& j.spec_get("score"@) == Some(Json::UInt(structure_score(s) as u64))
    &&& j.spec_get("metrics"@) matches Some(m) && metrics_json(m, s)
    &&& j.text_at("summary"@) == Some(structure_summary(s))
    &&& only_keys4(j, "domain"@, "score"@, "metrics"@, "summary"@)
}

fn bool_string(b: bool) -> (s: &'static str)
    ensures
        s@ == bool_text(b),
{
    if b { "true" } else { "false" }
}

/// The metrics object.
fn metrics_object(functions: usize, structs: usize, impls: usize, traits: usize, lines: usize,
    docs: usize, has_tests: bool, avg: usize) -> (m: Json)
    ensures
        m is Object,
        m.spec_get("function_count"@) == Some(Json::UInt(functions as u64)),
        m.spec_get("struct_count"@) == Some(Json::UInt(structs as u64)),
        m.spec_get("impl_count"@) == Some(Json::UInt(impls as u64)),
        m.spec_get("trait_count"@) == Some(Json::UInt(traits as u64)),
        m.spec_get("lines_of_code"@) == Some(Json::UInt(lines as u64)),
        m.spec_get("has_documentation"@) == Some(Json::Bool(docs > 0)),
        m.spec_get("doc_comment_count"@) == Some(Json::UInt(docs as u64)),
        m.spec_get("has_tests"@) == Some(Json::Bool(has_tests)),
        m.spec_get("avg_function_length"@) == Some(Json::UInt(avg as u64)),
        forall|k: Seq<char>| k != "function_count"@ && k != "struct_count"@ && k != "impl_count"@
            && k != "trait_count"@ && k != "lines_of_code"@ && k != "has_documentation"@
            && k != "doc_comment_count"@ && k != "has_tests"@ && k != "avg_function_length"@
            ==> #[trigger] m.spec_get(k) is None,
{
    proof {
        reveal_strlit("function_count");
        reveal_strlit("struct_count");
        reveal_strlit("impl_count");
        reveal_strlit("trait_count");
        reveal_strlit("lines_of_code");
        reveal_strlit("has_documentation");
        reveal_strlit("doc_comment_count");
        reveal_strlit("has_tests");
        reveal_strlit("avg_function_length");
        assert("function_count"@.len() == 14);
        assert("struct_count"@.len() == 12);
        assert("impl_count"@.len() == 10);
        assert("trait_count"@.len() == 11);
        assert("lines_of_code"@.len() == 13);
        assert("has_documentation"@.len() == 17);
        assert("doc_comment_count"@.len() == 17);
        assert("has_tests"@.len() == 9);
        assert("avg_function_length"@.len() == 19);
        assert("has_documentation"@[0] != "doc_comment_count"@[0]);
    }
    let mut m = Json::object4(
        "function_count", Json::UInt(functions as u64),
        "struct_count", Json::UInt(structs as u64),
        "impl_count", Json::UInt(impls as u64),
        "trait_count", Json::UInt(traits as u64),
    );
    m.set("lines_of_code", Json::UInt(lines as u64));
    m.set("has_documentation", Json::Bool(docs > 0));
    m.set("doc_comment_count", Json::UInt(docs as u64));
    m.set("has_tests", Json::Bool(has_tests));
    m.set("avg_function_length", Json::UInt(avg as u64));
    m
}

/// Reviews structure: counts functions, structs, impls, traits, lines and
/// doc comments, looks for tests, and scores documentation, tests and the
/// average function length.
pub fn analyze_structure(code: &str) -> (j: Json)
    requires
        utf8_size(code@) <= usize::MAX,
    ensures
        structure_json(j, structure_of(code@)),
{
    let ghost s = structure_of(code@);
    let chars = chars_of(code);
    proof {
        reveal_strlit("fn ");
        reveal_strlit("struct ");
        reveal_strlit("impl ");
        reveal_strlit("trait ");
        reveal_strlit("///");
    }
    let functions = count_str(&chars, "fn ");
    let structs = count_str(&chars, "struct ");
    let impls = count_str(&chars, "impl ");
    let traits = count_str(&chars, "trait ");
    let lines = line_sizes(&chars).len();
    let docs = count_str(&chars, "///");
    let has_docs = docs > 0;
    let has_tests = str_contains(code, "#[test]");
    let mut score: u32 = 100;
    if !has_docs && functions > 3 {
        score = less(score, 10);
    }
    if !has_tests && functions > 3 {
        score = less(score, 10);
    }
    let avg = if functions > 0 { lines / functions } else { 0 };
    if avg > 50 {
        score = less(score, 15);
    }
    let metrics = metrics_object(functions, structs, impls, traits, lines, docs, has_tests, avg);
    let summary = String::from_str("Structure: ")
        .concat(u64_to_string(functions as u64).as_str())
        .concat(" functions, ")
        .concat(u64_to_string(structs as u64).as_str())
        .concat(" structs, ")
        .concat(u64_to_string(lines as u64).as_str())
        .concat(" LOC, docs: ")
        .concat(bool_string(has_docs))
        .concat(", tests: ")
        .concat(bool_string(has_tests));
    proof {
        reveal_strlit("metrics");
        reveal_strlit("domain");
        reveal_strlit("score");
        reveal_strlit("summary");
        assert("metrics"@.len() != "domain"@.len());
        assert("metrics"@.len() != "score"@.len());
        assert("metrics"@[0] != "summary"@[0]);
        assert(summary@ =~= structure_summary(s));
    }
    report("structure", score, "metrics", metrics, summary)
}


/// Every analysis scores between 0 and 100.
pub proof fn law_scores_at_most_100(code: Seq<char>)
    ensures
        style_score(code) <= 100,
        security_score(code) <= 100,
        performance_score(code) <= 100,
        structure_score(structure_of(code)) <= 100,
{
}

/// Clean code scores 100: without findings, an analysis deducts nothing.
pub proof fn law_no_findings_full_score(code: Seq<char>)
    ensures
        style_findings(code).len() == 0 ==> style_score(code) == 100,
        security_findings(code).len() == 0 ==> security_score(code) == 100,
        performance_findings(code).len() == 0 ==> performance_score(code) == 100,
{
    if style_findings(code).len() == 0 {
        assert(long_lines(line_size_seq(code)).len() == 0);
        assert(!style_naming(code));
        assert(!style_mixed(code));
        assert(!style_todos(code));
    }
    if security_findings(code).len() == 0 {
        assert(!security_sql(code));
        assert(secret_findings(lowercase(code)).len() == 0);
        assert(!contains_seq(code, "unsafe"@));
        assert(unwraps(code) == 0);
    }
}

/// The structure score starts at 100 and loses 10 for undocumented code
/// with more than three functions, 10 for untested code with more than three
/// functions, and 15 when functions average more than 50 lines.
pub proof fn law_structure_deductions(s: Structure)
    ensures
        structure_score(s) == 100 - (if s.doc_comments == 0 && s.functions > 3 { 10int } else { 0 })
            - (if !s.has_tests && s.functions > 3 { 10int } else { 0 })
            - (if s.functions > 0 && s.lines / s.functions > 50 { 15int } else { 0 }),
        s.functions > 0 && s.lines / s.functions > 50 ==> structure_score(s) <= 85,
        s.functions <= 3 && (s.functions == 0 || s.lines / s.functions <= 50) ==> structure_score(s) == 100,
        structure_score(s) >= 65,
{
}

/// Code scores full marks exactly when an analysis finds nothing: every
/// finding costs points.
pub proof fn law_full_score_iff_no_findings(code: Seq<char>)
    ensures
        style_score(code) == 100 <==> style_findings(code).len() == 0,
        security_score(code) == 100 <==> security_findings(code).len() == 0,
        performance_score(code) == 100 <==> performance_findings(code).len() == 0,
{
    law_no_findings_full_score(code);
}

/// What each finding costs at least: a long line 2 points, mixed naming 5,
/// mixed indentation 10, pending notes 3; formatted SQL 20, a hard-coded
/// secret 30, `unsafe` 10, `unwrap()` 5; nested loops 10, clones in loops
/// 15, needless allocations 5, awaits in loops 20.
pub proof fn law_findings_cost_points(code: Seq<char>)
    ensures
        long_lines(line_size_seq(code)).len() > 0 ==> style_score(code) <= 98,
        style_naming(code) ==> style_score(code) <= 95,
        style_mixed(code) ==> style_score(code) <= 90,
        style_todos(code) ==> style_score(code) <= 97,
        security_sql(code) ==> security_score(code) <= 80,
        secret_findings(lowercase(code)).len() > 0 ==> security_score(code) <= 70,
        contains_seq(code, "unsafe"@) ==> security_score(code) <= 90,
        unwraps(code) > 0 ==> security_score(code) <= 95,
        nested_loops(code) > 0 ==> performance_score(code) <= 90,
        perf_clone(code) ==> performance_score(code) <= 85,
        perf_alloc(code) ==> performance_score(code) <= 95,
        perf_async(code) ==> performance_score(code) <= 80,
{
}

/// The style check flags exactly the lines over 100 bytes: each flagged
/// line is one of them, numbered from 1 with its length, and code whose
/// lines all fit is not flagged at all.
pub proof fn law_long_lines_are_over_100(sizes: Seq<nat>)
    ensures
        forall|k: int| 0 <= k < long_lines(sizes).len() ==> {
            let f = #[trigger] long_lines(sizes)[k];
            &&& f matches Finding::LongLine { line, length }
            &&& 1 <= line <= sizes.len()
            &&& length == sizes[line - 1]
            &&& length > 100
        },
        (forall|k: int| 0 <= k < sizes.len() ==> #[trigger] sizes[k] <= 100) ==> long_lines(sizes).len() == 0,
        (exists|k: int| 0 <= k < sizes.len() && #[trigger] sizes[k] > 100) ==> long_lines(sizes).len() > 0,
    decreases sizes.len(),
{
    if sizes.len() > 0 {
        let d = sizes.drop_last();
        law_long_lines_are_over_100(d);
        assert forall|k: int| 0 <= k < d.len() implies d[k] == sizes[k] by {}
        if exists|k: int| 0 <= k < sizes.len() && #[trigger] sizes[k] > 100 {
            let k = choose|k: int| 0 <= k < sizes.len() && #[trigger] sizes[k] > 100;
            if k < d.len() {
                assert(d[k] > 100);
            }
        }
        if forall|k: int| 0 <= k < sizes.len() ==> #[trigger] sizes[k] <= 100 {
            assert forall|k: int| 0 <= k < d.len() implies #[trigger] d[k] <= 100 by {
                assert(sizes[k] <= 100);
            }
            assert(sizes[sizes.len() - 1] <= 100);
        }
    }
}

} // verus!
