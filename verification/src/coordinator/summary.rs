//! Summaries of the agents' outputs: scores by domain, the issues they
//! found, and recommendations.

use vstd::prelude::*;
use crate::agent::task::Output;
use crate::json::Json;

verus! {

/// The domain and score an output reports, if it reports both.
pub open spec fn domain_score(result: Json) -> Option<(Seq<char>, u32)> {
    match result.text_at("domain"@) {
        Some(d) => match result.member("score"@).spec_as_u64() {
            Some(s) => Some((d, s as u32)),
            None => None,
        },
        None => None,
    }
}

/// The index of the first entry for domain `d`.
pub open spec fn key_index(list: Seq<(Seq<char>, u32)>, d: Seq<char>) -> Option<int>
    decreases list.len(),
{
    if list.len() == 0 {
        None
    } else if list[0].0 == d {
        Some(0)
    } else {
        match key_index(list.drop_first(), d) {
            Some(i) => Some(i + 1),
            None => None,
        }
    }
}

pub proof fn lemma_key_index(list: Seq<(Seq<char>, u32)>, d: Seq<char>)
    ensures
        key_index(list, d) matches Some(i) ==> 0 <= i < list.len() && list[i].0 == d
            && forall|j: int| 0 <= j < i ==> (#[trigger] list[j]).0 != d,
        key_index(list, d) is None ==> forall|j: int| 0 <= j < list.len() ==> (#[trigger] list[j]).0 != d,
    decreases list.len(),
{
    if list.len() > 0 {
        lemma_key_index(list.drop_first(), d);
        if list[0].0 != d {
            assert forall|j: int| 1 <= j < list.len() implies list[j] == list.drop_first()[j - 1] by {}
        }
    }
}

/// `list` with domain `d` scored `s`: the score replaced where `d` is
/// listed, appended otherwise.
pub open spec fn put(list: Seq<(Seq<char>, u32)>, d: Seq<char>, s: u32) -> Seq<(Seq<char>, u32)> {
    match key_index(list, d) {
        Some(i) => list.update(i, (d, s)),
        None => list.push((d, s)),
    }
}

/// The scores by domain that the outputs report, in the order the domains
/// first appear; a later score for a domain replaces an earlier one.
pub open spec fn scores_of(outputs: Seq<(String, Output)>) -> Seq<(Seq<char>, u32)>
    decreases outputs.len(),
{
    if outputs.len() == 0 {
        Seq::empty()
    } else {
        let prev = scores_of(outputs.drop_last());
        match domain_score(outputs.last().1.result) {
            Some(p) => put(prev, p.0, p.1),
            None => prev,
        }
    }
}

/// No domain is listed twice.
pub open spec fn distinct_keys(list: Seq<(Seq<char>, u32)>) -> bool {
    forall|a: int, b: int| 0 <= a < b < list.len() ==> (#[trigger] list[a]).0 != (#[trigger] list[b]).0
}

pub proof fn lemma_put_distinct(list: Seq<(Seq<char>, u32)>, d: Seq<char>, s: u32)
    requires
        distinct_keys(list),
    ensures
        distinct_keys(put(list, d, s)),
{
    lemma_key_index(list, d);
}

pub proof fn lemma_scores_distinct(outputs: Seq<(String, Output)>)
    ensures
        distinct_keys(scores_of(outputs)),
    decreases outputs.len(),
{
    if outputs.len() > 0 {
        lemma_scores_distinct(outputs.drop_last());
        match domain_score(outputs.last().1.result) {
            Some(p) => lemma_put_distinct(scores_of(outputs.drop_last()), p.0, p.1),
            None => {},
        }
    }
}

/// The sum of the scores.
pub open spec fn score_sum(list: Seq<(Seq<char>, u32)>) -> nat
    decreases list.len(),
{
    if list.len() == 0 { 0 } else { score_sum(list.drop_last()) + (list.last().1 as nat) }
}

/// The mean score, rounded down; 0 without scores.
pub open spec fn overall_score(list: Seq<(Seq<char>, u32)>) -> u32 {
    if list.len() == 0 { 0 } else { (score_sum(list) / list.len()) as u32 }
}

/// An issue as the summary lists it: the agent, whether it is an issue or
/// a vulnerability, and what the agent reported.
pub struct IssueEntry {
    pub agent: Seq<char>,
    pub kind: Seq<char>,
    pub value: Json,
}

/// The entries for the items of `list`, if it is an array.
pub open spec fn arr_entries(agent: Seq<char>, list: Option<Json>, kind: Seq<char>) -> Seq<IssueEntry> {
    match list {
        Some(l) => match l.spec_as_array() {
            Some(items) => items.map_values(|v: Json| IssueEntry { agent, kind, value: v }),
            None => Seq::empty(),
        },
        None => Seq::empty(),
    }
}

/// The entries for the items of member `list_key` of `result`, if it is an array.
pub open spec fn list_entries(agent: Seq<char>, result: Json, list_key: Seq<char>, kind: Seq<char>) -> Seq<IssueEntry> {
    arr_entries(agent, result.spec_get(list_key), kind)
}

/// The issues and vulnerabilities the outputs report, output by output.
pub open spec fn issue_entries(outputs: Seq<(String, Output)>) -> Seq<IssueEntry>
    decreases outputs.len(),
{
    if outputs.len() == 0 {
        Seq::empty()
    } else {
        let (agent, output) = outputs.last();
        issue_entries(outputs.drop_last())
            + list_entries(agent@, output.result, "issues"@, "issue"@)
            + list_entries(agent@, output.result, "vulnerabilities"@, "vulnerability"@)
    }
}

/// `j` is `{"agent": agent, kind: value}`.
pub open spec fn entry_json(j: Json, e: IssueEntry) -> bool {
    &&& j is Object
    &&& j.text_at("agent"@) == Some(e.agent)
    &&& j.spec_get(e.kind) == Some(e.value)
    &&& forall|k: Seq<char>| k != "agent"@ && k != e.kind ==> #[trigger] j.spec_get(k) is None
}

/// `items` list the entries.
pub open spec fn entries_json(items: Seq<Json>, entries: Seq<IssueEntry>) -> bool {
    &&& items.len() == entries.len()
    &&& forall|i: int| 0 <= i < entries.len() ==> entry_json(#[trigger] items[i], entries[i])
}

/// The advice for an overall score.
pub open spec fn score_advice(score: u32) -> Seq<char> {
    if score < 50 {
        "代码质量需要重点关注，建议进行全面重构"@
    } else if score < 70 {
        "代码质量一般，建议针对性优化"@
    } else if score < 90 {
        "代码质量良好，可以进一步优化细节"@
    } else {
        "代码质量优秀，继续保持"@
    }
}

/// The advice for a critical vulnerability.
pub open spec fn critical_advice() -> Seq<char> {
    "发现严重安全问题，需要立即修复"@
}

/// A listed issue is a vulnerability of critical severity.
pub open spec fn is_critical(issue: Json) -> bool {
    issue.member("vulnerability"@).text_at("severity"@) == Some("critical"@)
}

/// The recommendations: the advice for the score, then one warning per
/// critical vulnerability.
pub open spec fn recommendations(score: u32, issues: Seq<Json>) -> Seq<Seq<char>>
    decreases issues.len(),
{
    if issues.len() == 0 {
        seq![score_advice(score)]
    } else {
        let rest = recommendations(score, issues.drop_last());
        if is_critical(issues.last()) { rest.push(critical_advice()) } else { rest }
    }
}

/// The recommendations for an overall score and the listed issues.
pub fn generate_recommendations(score: u32, issues: &Vec<Json>) -> (r: Vec<String>)
    ensures
        r@.map_values(|s: String| s@) == recommendations(score, issues@),
{
    let mut r: Vec<String> = Vec::new();
    let advice = if score < 50 {
        "代码质量需要重点关注，建议进行全面重构"
    } else if score < 70 {
        "代码质量一般，建议针对性优化"
    } else if score < 90 {
        "代码质量良好，可以进一步优化细节"
    } else {
        "代码质量优秀，继续保持"
    };
    r.push(String::from_str(advice));
    proof {
        assert(r@.map_values(|s: String| s@) =~= recommendations(score, issues@.take(0)));
    }
    let mut i: usize = 0;
    while i < issues.len()
        invariant
            i <= issues@.len(),
            r@.map_values(|s: String| s@) == recommendations(score, issues@.take(i as int)),
        decreases issues@.len() - i,
    {
        proof {
            assert(issues@.take(i + 1).drop_last() =~= issues@.take(i as int));
            reveal_strlit("vulnerability");
            reveal_strlit("severity");
        }
        let severity = match issues[i].get("vulnerability") {
            Some(v) => match v.get("severity") {
                Some(s) => s.as_str(),
                None => None,
            },
            None => None,
        };
        let critical = match severity {
            Some(s) => crate::json::str_eq(s, "critical"),
            None => false,
        };
        if critical {
            let ghost before = r@;
            r.push(String::from_str("发现严重安全问题，需要立即修复"));
            proof {
                assert(r@.map_values(|s: String| s@) =~= before.map_values(|s: String| s@).push(critical_advice()));
            }
        }
        i = i + 1;
    }
    proof {
        assert(issues@.take(issues@.len() as int) =~= issues@);
    }
    r
}

/// The view of a score list.
pub open spec fn score_view(list: Seq<(String, u32)>) -> Seq<(Seq<char>, u32)> {
    list.map_values(|p: (String, u32)| (p.0@, p.1))
}

/// Scores domain `d` with `s`, replacing an earlier score of `d`.
fn put_score(list: &mut Vec<(String, u32)>, d: &str, s: u32)
    ensures
        score_view(final(list)@) == put(score_view(old(list)@), d@, s),
{
    let ghost before = score_view(list@);
    let n = list.len();
    let mut i: usize = 0;
    while i < n && !crate::text::str_eq_string(&list[i].0, d)
        invariant
            n == list@.len(),
            before == score_view(list@),
            i <= n,
            forall|j: int| 0 <= j < i ==> (#[trigger] list@[j]).0@ != d@,
        decreases n - i,
    {
        i = i + 1;
    }
    proof {
        lemma_key_index(before, d@);
        if i < n {
            assert(before[i as int].0 == d@);
            assert forall|j: int| 0 <= j < i implies (#[trigger] before[j]).0 != d@ by {
                assert(before[j].0 == list@[j].0@);
            }
            match key_index(before, d@) {
                Some(t) => {
                    if t < i { assert(before[t].0 != d@); }
                    if t > i { assert(before[i as int].0 != d@); }
                },
                None => { assert(before[i as int].0 != d@); },
            }
        } else {
            match key_index(before, d@) {
                Some(t) => { assert(list@[t].0@ != d@); },
                None => {},
            }
        }
    }
    if i < n {
        list.set(i, (String::from_str(d), s));
        proof {
            assert(score_view(list@) =~= before.update(i as int, (d@, s)));
        }
    } else {
        list.push((String::from_str(d), s));
        proof {
            assert(score_view(list@) =~= before.push((d@, s)));
        }
    }
}

/// The scores by domain that `outputs` report.
fn collect_scores(outputs: &Vec<(String, Output)>) -> (list: Vec<(String, u32)>)
    ensures
        score_view(list@) == scores_of(outputs@),
{
    let mut list: Vec<(String, u32)> = Vec::new();
    let mut k: usize = 0;
    proof {
        assert(score_view(list@) =~= scores_of(outputs@.take(0)));
    }
    while k < outputs.len()
        invariant
            k <= outputs@.len(),
            score_view(list@) == scores_of(outputs@.take(k as int)),
        decreases outputs@.len() - k,
    {
        proof {
            assert(outputs@.take(k + 1).drop_last() =~= outputs@.take(k as int));
            reveal_strlit("domain");
            reveal_strlit("score");
        }
        let result = &outputs[k].1.result;
        let domain = match result.get("domain") {
            Some(d) => d.as_str(),
            None => None,
        };
        let score = match result.get("score") {
            Some(v) => v.as_u64(),
            None => None,
        };
        match domain {
            Some(d) => match score {
                Some(sc) => put_score(&mut list, d, sc as u32),
                None => {},
            },
            None => {},
        }
        k = k + 1;
    }
    proof {
        assert(outputs@.take(outputs@.len() as int) =~= outputs@);
    }
    list
}

pub proof fn lemma_score_sum_prefix(list: Seq<(Seq<char>, u32)>, i: int)
    requires
        0 <= i <= list.len(),
    ensures
        score_sum(list.take(i)) <= score_sum(list),
    decreases list.len(),
{
    if i < list.len() {
        assert(list.drop_last().take(i) =~= list.take(i));
        lemma_score_sum_prefix(list.drop_last(), i);
    } else {
        assert(list.take(i) =~= list);
    }
}

/// The mean of the scores, rounded down; 0 without scores.
fn mean_score(list: &Vec<(String, u32)>) -> (m: u32)
    requires
        score_sum(score_view(list@)) <= u32::MAX,
        list@.len() <= u32::MAX,
    ensures
        m == overall_score(score_view(list@)),
{
    let ghost v = score_view(list@);
    let n = list.len();
    if n == 0 {
        return 0;
    }
    let mut sum: u32 = 0;
    let mut i: usize = 0;
    while i < n
        invariant
            n == list@.len(),
            v == score_view(list@),
            score_sum(v) <= u32::MAX,
            i <= n,
            sum == score_sum(v.take(i as int)),
        decreases n - i,
    {
        proof {
            assert(v.take(i + 1).drop_last() =~= v.take(i as int));
            lemma_score_sum_prefix(v, i + 1);
        }
        sum = sum + list[i].1;
        i = i + 1;
    }
    proof {
        assert(v.take(n as int) =~= v);
    }
    let count = n as u32;
    sum / count
}

/// `m` maps each listed domain to its score, and nothing else.
pub open spec fn scores_json(m: Json, list: Seq<(Seq<char>, u32)>) -> bool {
    &&& m is Object
    &&& forall|i: int| 0 <= i < list.len() ==> m.spec_get(#[trigger] list[i].0) == Some(Json::UInt(list[i].1 as u64))
    &&& forall|k: Seq<char>| (forall|i: int| 0 <= i < list.len() ==> #[trigger] list[i].0 != k)
        ==> #[trigger] m.spec_get(k) is None
}

/// The scores as a JSON object.
fn scores_object(list: &Vec<(String, u32)>) -> (m: Json)
    requires
        distinct_keys(score_view(list@)),
    ensures
        scores_json(m, score_view(list@)),
{
    let ghost v = score_view(list@);
    let mut m = Json::Object(Vec::new());
    let mut i: usize = 0;
    while i < list.len()
        invariant
            i <= list@.len(),
            v == score_view(list@),
            distinct_keys(v),
            scores_json(m, v.take(i as int)),
        decreases list@.len() - i,
    {
        let ghost before = m;
        m.set(list[i].0.as_str(), Json::UInt(list[i].1 as u64));
        proof {
            let t = v.take(i + 1);
            assert(t[i as int] == v[i as int]);
            assert forall|a: int| 0 <= a < t.len() implies m.spec_get(#[trigger] t[a].0) == Some(Json::UInt(t[a].1 as u64)) by {
                if a < i {
                    assert(t[a] == v.take(i as int)[a]);
                    assert(v[a].0 != v[i as int].0);
                }
            }
            assert forall|k: Seq<char>| (forall|a: int| 0 <= a < t.len() ==> #[trigger] t[a].0 != k)
                implies #[trigger] m.spec_get(k) is None by {
                assert(t[i as int].0 != k);
                assert forall|a: int| 0 <= a < i implies #[trigger] v.take(i as int)[a].0 != k by {
                    assert(v.take(i as int)[a] == t[a]);
                }
            }
        }
        i = i + 1;
    }
    proof {
        assert(v.take(list@.len() as int) =~= v);
    }
    m
}

/// The members `k1` and `k2` of an object, moved out of it.
fn take_members(j: Json, k1: &str, k2: &str) -> (r: (Option<Json>, Option<Json>))
    requires
        k1@ != k2@,
    ensures
        r.0 == j.spec_get(k1@),
        r.1 == j.spec_get(k2@),
{
    let ghost orig = j;
    match j {
        Json::Object(entries) => {
            let ghost all = entries@;
            let mut rest = entries;
            let mut a: Option<Json> = None;
            let mut b: Option<Json> = None;
            let n = rest.len();
            let mut i: usize = 0;
            proof {
                crate::json::lemma_find_key(all, k1@);
                crate::json::lemma_find_key(all, k2@);
            }
            while i < n
                invariant
                    n == all.len(),
                    k1@ != k2@,
                    i <= n,
                    rest@ == all.skip(i as int),
                    a == (match crate::json::find_key(all, k1@) { Some(t) => if t < i { Some(all[t].1) } else { None::<Json> }, None => None::<Json> }),
                    b == (match crate::json::find_key(all, k2@) { Some(t) => if t < i { Some(all[t].1) } else { None::<Json> }, None => None::<Json> }),
                    crate::json::find_key(all, k1@) matches Some(t) ==> 0 <= t < all.len() && all[t].0@ == k1@
                        && forall|x: int| 0 <= x < t ==> (#[trigger] all[x]).0@ != k1@,
                    crate::json::find_key(all, k1@) is None ==> forall|x: int| 0 <= x < all.len() ==> (#[trigger] all[x]).0@ != k1@,
                    crate::json::find_key(all, k2@) matches Some(t) ==> 0 <= t < all.len() && all[t].0@ == k2@
                        && forall|x: int| 0 <= x < t ==> (#[trigger] all[x]).0@ != k2@,
                    crate::json::find_key(all, k2@) is None ==> forall|x: int| 0 <= x < all.len() ==> (#[trigger] all[x]).0@ != k2@,
                decreases n - i,
            {
                proof {
                    assert(rest@[0] == all[i as int]);
                }
                let (key, value) = rest.remove(0);
                proof {
                    assert(rest@ =~= all.skip(i + 1));
                }
                if a.is_none() && crate::text::str_eq_string(&key, k1) {
                    a = Some(value);
                } else if b.is_none() && crate::text::str_eq_string(&key, k2) {
                    b = Some(value);
                }
                i = i + 1;
            }
            (a, b)
        },
        _ => (None, None),
    }
}

/// Appends the entries for the items of `list` for `agent`.
fn push_entries(items: &mut Vec<Json>, agent: &String, list: Option<Json>, kind: &str,
    Ghost(done): Ghost<Seq<IssueEntry>>)
    requires
        entries_json(old(items)@, done),
        kind@ != "agent"@,
    ensures
        entries_json(final(items)@, done + arr_entries(agent@, list, kind@)),
{
    let ghost l = list;
    match list {
        Some(Json::Array(vals)) => {
            let ghost all = vals@;
            let ghost target = arr_entries(agent@, l, kind@);
            let mut rest = vals;
            let n = rest.len();
            let mut i: usize = 0;
            proof {
                reveal_strlit("agent");
                assert(done + target.take(0) =~= done);
            }
            while i < n
                invariant
                    n == all.len(),
                    i <= n,
                    kind@ != "agent"@,
                    rest@ == all.skip(i as int),
                    target == all.map_values(|v: Json| IssueEntry { agent: agent@, kind: kind@, value: v }),
                    entries_json(items@, done + target.take(i as int)),
                decreases n - i,
            {
                proof {
                    assert(rest@[0] == all[i as int]);
                }
                let v = rest.remove(0);
                proof {
                    assert(rest@ =~= all.skip(i + 1));
                }
                let ghost value = v;
                let entry = Json::object2("agent", Json::Str(agent.clone()), kind, v);
                let ghost before = items@;
                items.push(entry);
                proof {
                    let e = IssueEntry { agent: agent@, kind: kind@, value };
                    assert(target[i as int] == e);
                    assert(done + target.take(i + 1) =~= (done + target.take(i as int)).push(e));
                    assert forall|x: int| 0 <= x < items@.len() implies
                        entry_json(#[trigger] items@[x], (done + target.take(i + 1))[x]) by {
                        if x < before.len() {
                            assert(items@[x] == before[x]);
                        }
                    }
                }
                i = i + 1;
            }
            proof {
                assert(target.take(n as int) =~= target);
            }
        },
        _ => {
            proof {
                assert(arr_entries(agent@, l, kind@) =~= Seq::<IssueEntry>::empty());
                assert(done + arr_entries(agent@, l, kind@) =~= done);
            }
        },
    }
}

/// The items of an array value.
pub open spec fn array_items(j: Option<Json>) -> Option<Seq<Json>> {
    match j {
        Some(a) => a.spec_as_array(),
        None => None,
    }
}

/// `items` are the strings `texts`.
pub open spec fn texts_json(items: Seq<Json>, texts: Seq<Seq<char>>) -> bool {
    &&& items.len() == texts.len()
    &&& forall|i: int| 0 <= i < texts.len() ==> (#[trigger] items[i]).spec_as_str() == Some(texts[i])
}

/// `j` summarises `outputs`: the mean of the domain scores, the scores by
/// domain, the number and list of issues, the number of outputs, and the
/// recommendations.
pub open spec fn summary_json(j: Json, outputs: Seq<(String, Output)>) -> bool {
    let scores = scores_of(outputs);
    let overall = overall_score(scores);
    let entries = issue_entries(outputs);
    &&& j is Object
    &&& j.spec_get("overall_score"@) == Some(Json::UInt(overall as u64))
    &&& j.spec_get("domain_scores"@) matches Some(m) && scores_json(m, scores)
    &&& j.spec_get("total_issues"@) == Some(Json::UInt(entries.len() as u64))
    &&& array_items(j.spec_get("issues"@)) matches Some(items) && entries_json(items, entries)
        && array_items(j.spec_get("recommendations"@)) is Some
        && texts_json(array_items(j.spec_get("recommendations"@))->0, recommendations(overall, items))
    &&& j.spec_get("agent_count"@) == Some(Json::UInt(outputs.len() as u64))
    &&& forall|k: Seq<char>| k != "overall_score"@ && k != "domain_scores"@ && k != "total_issues"@
        && k != "issues"@ && k != "agent_count"@ && k != "recommendations"@ ==> #[trigger] j.spec_get(k) is None
}

/// Summarises the agents' outputs (agent id and output each).
pub fn generate_summary(outputs: Vec<(String, Output)>) -> (j: Json)
    requires
        score_sum(scores_of(outputs@)) <= u32::MAX,
        scores_of(outputs@).len() <= u32::MAX,
    ensures
        summary_json(j, outputs@),
{
    let n = outputs.len();
    let list = collect_scores(&outputs);
    proof {
        lemma_scores_distinct(outputs@);
    }
    let overall = mean_score(&list);
    let scores = scores_object(&list);
    let ghost all = outputs@;
    let mut rest = outputs;
    let mut items: Vec<Json> = Vec::new();
    let mut k: usize = 0;
    proof {
        reveal_strlit("issues");
        reveal_strlit("vulnerabilities");
        reveal_strlit("issue");
        reveal_strlit("vulnerability");
        reveal_strlit("agent");
        assert("issues"@.len() != "vulnerabilities"@.len());
        assert("issue"@.len() != "agent"@.len() || "issue"@[0] != "agent"@[0]);
        assert("vulnerability"@.len() != "agent"@.len());
        assert(issue_entries(all.take(0)) =~= Seq::<IssueEntry>::empty());
    }
    while k < n
        invariant
            n == all.len(),
            k <= n,
            rest@ == all.skip(k as int),
            "issues"@ != "vulnerabilities"@,
            "issue"@ != "agent"@,
            "vulnerability"@ != "agent"@,
            entries_json(items@, issue_entries(all.take(k as int))),
        decreases n - k,
    {
        proof {
            assert(rest@[0] == all[k as int]);
            assert(all.take(k + 1).drop_last() =~= all.take(k as int));
        }
        let (agent, output) = rest.remove(0);
        proof {
            assert(rest@ =~= all.skip(k + 1));
        }
        let ghost result = output.result;
        let (issues, vulns) = take_members(output.result, "issues", "vulnerabilities");
        let ghost mid = issue_entries(all.take(k as int)) + arr_entries(agent@, issues, "issue"@);
        push_entries(&mut items, &agent, issues, "issue", Ghost(issue_entries(all.take(k as int))));
        push_entries(&mut items, &agent, vulns, "vulnerability", Ghost(mid));
        proof {
            assert(issue_entries(all.take(k + 1)) == mid + arr_entries(agent@, vulns, "vulnerability"@));
        }
        k = k + 1;
    }
    proof {
        assert(all.take(n as int) =~= all);
    }
    let recs = generate_recommendations(overall, &items);
    let ghost rec_texts = recommendations(overall, items@);
    let mut rec_items: Vec<Json> = Vec::new();
    let mut r = 0usize;
    while r < recs.len()
        invariant
            r <= recs@.len(),
            recs@.map_values(|s: String| s@) == rec_texts,
            texts_json(rec_items@, rec_texts.take(r as int)),
        decreases recs@.len() - r,
    {
        rec_items.push(Json::Str(recs[r].clone()));
        proof {
            assert(rec_texts[r as int] == recs@[r as int]@);
        }
        r = r + 1;
    }
    proof {
        assert(rec_texts.take(recs@.len() as int) =~= rec_texts);
        reveal_strlit("overall_score");
        reveal_strlit("domain_scores");
        reveal_strlit("total_issues");
        reveal_strlit("agent_count");
        reveal_strlit("recommendations");
        assert("overall_score"@[0] != "domain_scores"@[0]);
        assert("overall_score"@.len() != "total_issues"@.len());
        assert("overall_score"@.len() != "issues"@.len());
        assert("overall_score"@.len() != "agent_count"@.len());
        assert("overall_score"@.len() != "recommendations"@.len());
        assert("domain_scores"@.len() != "total_issues"@.len());
        assert("domain_scores"@.len() != "issues"@.len());
        assert("domain_scores"@.len() != "agent_count"@.len());
        assert("domain_scores"@.len() != "recommendations"@.len());
        assert("total_issues"@.len() != "issues"@.len());
        assert("total_issues"@.len() != "agent_count"@.len());
        assert("total_issues"@.len() != "recommendations"@.len());
        assert("issues"@.len() != "agent_count"@.len());
        assert("issues"@.len() != "recommendations"@.len());
        assert("agent_count"@.len() != "recommendations"@.len());
    }
    let total = items.len();
    let mut j = Json::object4(
        "overall_score", Json::UInt(overall as u64),
        "domain_scores", scores,
        "total_issues", Json::UInt(total as u64),
        "issues", Json::Array(items),
    );
    j.set("agent_count", Json::UInt(n as u64));
    j.set("recommendations", Json::Array(rec_items));
    j
}

/// Whether the outputs can be summarised: the scores they report, one per
/// domain, sum to at most `u32::MAX`, and at most that many domains report.
pub fn summary_fits(outputs: &Vec<(String, Output)>) -> (b: bool)
    ensures
        b == (score_sum(scores_of(outputs@)) <= u32::MAX && scores_of(outputs@).len() <= u32::MAX),
{
    let list = collect_scores(outputs);
    let ghost v = score_view(list@);
    let n = list.len();
    if n as u64 > 0xffff_ffffu64 {
        return false;
    }
    let mut sum: u64 = 0;
    let mut i: usize = 0;
    while i < n
        invariant
            n == list@.len(),
            v == score_view(list@),
            v == scores_of(outputs@),
            i <= n,
            sum == score_sum(v.take(i as int)),
            sum <= u32::MAX,
        decreases n - i,
    {
        proof {
            assert(v.take(i + 1).drop_last() =~= v.take(i as int));
            assert(v.take(i + 1).last().1 == list@[i as int].1);
        }
        sum = sum + list[i].1 as u64;
        assert(sum == score_sum(v.take(i + 1)));
        if sum > 0xffff_ffffu64 {
            proof {
                lemma_score_sum_prefix(v, i + 1);
            }
            return false;
        }
        i = i + 1;
    }
    proof {
        assert(v.take(n as int) =~= v);
    }
    true
}


pub proof fn lemma_score_sum_bounded(list: Seq<(Seq<char>, u32)>, bound: nat)
    requires
        forall|i: int| 0 <= i < list.len() ==> (#[trigger] list[i]).1 <= bound,
    ensures
        score_sum(list) <= bound * list.len(),
    decreases list.len(),
{
    if list.len() > 0 {
        let d = list.drop_last();
        assert forall|i: int| 0 <= i < d.len() implies (#[trigger] d[i]).1 <= bound by {
            assert(d[i] == list[i]);
        }
        lemma_score_sum_bounded(d, bound);
        assert(bound * list.len() == bound * d.len() + bound) by (nonlinear_arith)
            requires
                list.len() == d.len() + 1,
        ;
    }
}

/// The overall score is at most any bound that every domain score meets:
/// with every domain scored at most 100, so is the overall score.
pub proof fn law_overall_score_bounded(list: Seq<(Seq<char>, u32)>, bound: nat)
    requires
        forall|i: int| 0 <= i < list.len() ==> (#[trigger] list[i]).1 <= bound,
        bound <= u32::MAX,
    ensures
        overall_score(list) <= bound,
{
    if list.len() > 0 {
        lemma_score_sum_bounded(list, bound);
        let s = score_sum(list);
        let n = list.len();
        assert(s / n <= bound) by (nonlinear_arith)
            requires
                s <= bound * n,
                n > 0,
        ;
    }
}

proof fn lemma_score_sum_floor(list: Seq<(Seq<char>, u32)>, floor: nat)
    requires
        forall|i: int| 0 <= i < list.len() ==> (#[trigger] list[i]).1 >= floor,
    ensures
        score_sum(list) >= floor * list.len(),
    decreases list.len(),
{
    if list.len() > 0 {
        let d = list.drop_last();
        assert forall|i: int| 0 <= i < d.len() implies (#[trigger] d[i]).1 >= floor by {
            assert(d[i] == list[i]);
        }
        lemma_score_sum_floor(d, floor);
        assert(floor * list.len() == floor * d.len() + floor) by (nonlinear_arith)
            requires
                list.len() == d.len() + 1,
        ;
    }
}

/// The overall score is the mean of the domain scores: it is at least any
/// floor that every domain score meets, and for a single domain it is that
/// domain's score.
pub proof fn law_overall_score_is_a_mean(list: Seq<(Seq<char>, u32)>, floor: nat)
    requires
        forall|i: int| 0 <= i < list.len() ==> (#[trigger] list[i]).1 >= floor,
        list.len() > 0,
        score_sum(list) <= u32::MAX,
    ensures
        overall_score(list) >= floor,
        list.len() == 1 ==> overall_score(list) == list[0].1,
        overall_score(list) * list.len() <= score_sum(list),
        score_sum(list) < (overall_score(list) + 1) * list.len(),
{
    lemma_score_sum_floor(list, floor);
    let s = score_sum(list);
    let n = list.len();
    assert(s / n >= floor) by (nonlinear_arith)
        requires
            s >= floor * n,
            n > 0,
    ;
    assert((s / n) * n <= s && s < (s / n + 1) * n) by (nonlinear_arith)
        requires
            n > 0,
    ;
    if n == 1 {
        assert(list.drop_last().len() == 0);
        assert(score_sum(list.drop_last()) == 0);
        assert(list.last() == list[0]);
        assert(s == list[0].1);
    }
}

} // verus!
