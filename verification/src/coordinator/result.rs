//! Results of executing subtasks, with partial failures kept apart.

use vstd::prelude::*;
use crate::agent::task::{Output, SubTask};
use crate::error::AgentError;
use crate::text::{decimal, u64_to_string};

verus! {

/// Outputs by subtask: `(subtask id, output)` pairs; an id stands for the
/// output of its first entry.
pub open spec fn first_entry(entries: Seq<(String, Output)>, id: Seq<char>) -> Option<int>
    decreases entries.len(),
{
    if entries.len() == 0 {
        None
    } else if entries[0].0@ == id {
        Some(0)
    } else {
        match first_entry(entries.drop_first(), id) {
            Some(i) => Some(i + 1),
            None => None,
        }
    }
}

/// The output recorded for `id`.
pub open spec fn lookup(entries: Seq<(String, Output)>, id: Seq<char>) -> Option<Output> {
    match first_entry(entries, id) {
        Some(i) => Some(entries[i].1),
        None => None,
    }
}

pub proof fn lemma_first_entry(entries: Seq<(String, Output)>, id: Seq<char>)
    ensures
        first_entry(entries, id) matches Some(i) ==> 0 <= i < entries.len() && entries[i].0@ == id
            && forall|j: int| 0 <= j < i ==> (#[trigger] entries[j]).0@ != id,
        first_entry(entries, id) is None ==> forall|j: int| 0 <= j < entries.len() ==> (#[trigger] entries[j]).0@ != id,
    decreases entries.len(),
{
    if entries.len() > 0 {
        lemma_first_entry(entries.drop_first(), id);
        if entries[0].0@ != id {
            assert forall|j: int| 1 <= j < entries.len() implies entries[j] == entries.drop_first()[j - 1] by {}
        }
    }
}

/// The first index whose id is `id`, if any, is `first_entry`.
pub proof fn lemma_first_entry_from_scan(entries: Seq<(String, Output)>, id: Seq<char>, i: int)
    requires
        0 <= i <= entries.len(),
        forall|j: int| 0 <= j < i ==> (#[trigger] entries[j]).0@ != id,
        i < entries.len() ==> entries[i].0@ == id,
    ensures
        first_entry(entries, id) == if i < entries.len() { Some(i) } else { None::<int> },
    decreases entries.len(),
{
    if entries.len() > 0 && i > 0 {
        let rest = entries.drop_first();
        assert forall|j: int| 0 <= j < i - 1 implies (#[trigger] rest[j]).0@ != id by {
            assert(rest[j] == entries[j + 1]);
        }
        if i < entries.len() {
            assert(rest[i - 1] == entries[i]);
        }
        lemma_first_entry_from_scan(rest, id, i - 1);
    }
}

/// Records `output` for `id`: replaces the output of the first entry for
/// `id`, or appends an entry (a map insertion).
pub fn insert_output(entries: &mut Vec<(String, Output)>, id: String, output: Output)
    ensures
        lookup(final(entries)@, id@) == Some(output),
        forall|k: Seq<char>| k != id@ ==> #[trigger] lookup(final(entries)@, k) == lookup(old(entries)@, k),
        final(entries)@.len() == old(entries)@.len() + if lookup(old(entries)@, id@) is None { 1int } else { 0 },
{
    let ghost before = entries@;
    let n = entries.len();
    let mut i: usize = 0;
    while i < n && !(entries[i].0 == id)
        invariant
            n == entries@.len(),
            entries@ == before,
            i <= n,
            forall|j: int| 0 <= j < i ==> (#[trigger] entries@[j]).0@ != id@,
        decreases n - i,
    {
        i = i + 1;
    }
    proof {
        lemma_first_entry_from_scan(before, id@, i as int);
        lemma_first_entry(before, id@);
    }
    if i < n {
        let ghost key = entries@[i as int].0;
        entries.set(i, (id, output));
        proof {
            let after = entries@;
            assert(after[i as int].0@ == key@);
            assert forall|j: int| 0 <= j < i implies (#[trigger] after[j]).0@ != key@ by {
                assert(after[j] == before[j]);
            }
            lemma_first_entry_from_scan(after, key@, i as int);
            assert forall|k: Seq<char>| k != key@ implies #[trigger] lookup(after, k) == lookup(before, k) by {
                lemma_first_entry(before, k);
                lemma_first_entry(after, k);
                match first_entry(before, k) {
                    Some(t) => {
                        assert(t != i);
                        assert(after[t] == before[t]);
                        lemma_first_entry_from_scan(after, k, t);
                    },
                    None => {
                        assert forall|j: int| 0 <= j < after.len() implies (#[trigger] after[j]).0@ != k by {
                            if j != i {
                                assert(after[j] == before[j]);
                            }
                        }
                        lemma_first_entry_from_scan(after, k, after.len() as int);
                    },
                }
            }
        }
    } else {
        let ghost key = id@;
        entries.push((id, output));
        proof {
            let after = entries@;
            assert forall|j: int| 0 <= j < n implies (#[trigger] after[j]).0@ != key by {
                assert(after[j] == before[j]);
            }
            lemma_first_entry_from_scan(after, key, n as int);
            assert forall|k: Seq<char>| k != key implies #[trigger] lookup(after, k) == lookup(before, k) by {
                lemma_first_entry(before, k);
                match first_entry(before, k) {
                    Some(t) => {
                        assert(after[t] == before[t]);
                        assert forall|j: int| 0 <= j < t implies (#[trigger] after[j]).0@ != k by {
                            assert(after[j] == before[j]);
                        }
                        lemma_first_entry_from_scan(after, k, t);
                    },
                    None => {
                        assert forall|j: int| 0 <= j < after.len() implies (#[trigger] after[j]).0@ != k by {
                            if j < n {
                                assert(after[j] == before[j]);
                            }
                        }
                        lemma_first_entry_from_scan(after, k, after.len() as int);
                    },
                }
            }
        }
    }
}

/// The outcome of one subtask.
#[derive(Debug)]
pub struct SubtaskResult {
    pub subtask_id: String,
    pub agent_id: String,
    pub success: bool,
    pub error_message: Option<String>,
    pub output: Option<Output>,
}

impl SubtaskResult {
    pub fn success(subtask_id: &str, agent_id: &str, output: Output) -> (r: Self)
        ensures
            r.subtask_id@ == subtask_id@,
            r.agent_id@ == agent_id@,
            r.success,
            r.error_message is None,
            r.output == Some(output),
    {
        SubtaskResult {
            subtask_id: String::from_str(subtask_id),
            agent_id: String::from_str(agent_id),
            success: true,
            error_message: None,
            output: Some(output),
        }
    }

    pub fn failure(subtask_id: &str, agent_id: &str, error_message: String) -> (r: Self)
        ensures
            r.subtask_id@ == subtask_id@,
            r.agent_id@ == agent_id@,
            !r.success,
            r.error_message == Some(error_message),
            r.output is None,
    {
        SubtaskResult {
            subtask_id: String::from_str(subtask_id),
            agent_id: String::from_str(agent_id),
            success: false,
            error_message: Some(error_message),
            output: None,
        }
    }

    pub fn is_success(&self) -> (b: bool)
        ensures
            b == self.success,
    {
        self.success
    }

    pub fn is_failure(&self) -> (b: bool)
        ensures
            b == !self.success,
    {
        !self.success
    }
}

/// The outcomes of a batch of subtasks: the outputs of those that
/// succeeded, by subtask id, and the results of those that failed.
#[derive(Debug)]
pub struct ParallelExecutionResult {
    pub successful: Vec<(String, Output)>,
    pub failed: Vec<SubtaskResult>,
    pub total: usize,
    pub success_count: usize,
    pub failure_count: usize,
}

impl ParallelExecutionResult {
    pub fn new() -> (r: Self)
        ensures
            r.successful@.len() == 0,
            r.failed@.len() == 0,
            r.total == 0,
            r.success_count == 0,
            r.failure_count == 0,
    {
        ParallelExecutionResult { successful: Vec::new(), failed: Vec::new(), total: 0, success_count: 0, failure_count: 0 }
    }

    /// An empty result for a batch of `total` subtasks.
    pub fn with_capacity(total: usize) -> (r: Self)
        ensures
            r.successful@.len() == 0,
            r.failed@.len() == 0,
            r.total == total,
            r.success_count == 0,
            r.failure_count == 0,
    {
        ParallelExecutionResult { successful: Vec::new(), failed: Vec::new(), total, success_count: 0, failure_count: 0 }
    }

    /// Records the output of a subtask that succeeded.
    pub fn add_success(&mut self, subtask_id: String, output: Output)
        requires
            old(self).success_count < usize::MAX,
        ensures
            lookup(final(self).successful@, subtask_id@) == Some(output),
            forall|k: Seq<char>| k != subtask_id@ ==>
                #[trigger] lookup(final(self).successful@, k) == lookup(old(self).successful@, k),
            final(self).success_count == old(self).success_count + 1,
            final(self).failed == old(self).failed,
            final(self).total == old(self).total,
            final(self).failure_count == old(self).failure_count,
    {
        insert_output(&mut self.successful, subtask_id, output);
        self.success_count = self.success_count + 1;
    }

    /// Records a subtask that failed.
    pub fn add_failure(&mut self, result: SubtaskResult)
        requires
            old(self).failure_count < usize::MAX,
        ensures
            final(self).failed@ == old(self).failed@.push(result),
            final(self).failure_count == old(self).failure_count + 1,
            final(self).successful == old(self).successful,
            final(self).total == old(self).total,
            final(self).success_count == old(self).success_count,
    {
        self.failed.push(result);
        self.failure_count = self.failure_count + 1;
    }

    /// No subtask failed, and there were subtasks.
    pub fn is_complete_success(&self) -> (b: bool)
        ensures
            b == (self.failure_count == 0 && self.total > 0),
    {
        self.failure_count == 0 && self.total > 0
    }

    /// Some subtasks succeeded and some failed.
    pub fn is_partial_success(&self) -> (b: bool)
        ensures
            b == (self.success_count > 0 && self.failure_count > 0),
    {
        self.success_count > 0 && self.failure_count > 0
    }

    /// No subtask succeeded, and there were subtasks.
    pub fn is_complete_failure(&self) -> (b: bool)
        ensures
            b == (self.success_count == 0 && self.total > 0),
    {
        self.success_count == 0 && self.total > 0
    }

    /// Gathers subtask results: the total is their number; a success
    /// records its output (one without an output records nothing), a
    /// failure is kept.
    pub fn from_results(results: Vec<SubtaskResult>) -> (r: Self)
        ensures
            r.total == results@.len(),
            r.failed@ == results@.filter(failed_result()),
            r.failure_count == r.failed@.len(),
            r.success_count == results@.filter(output_result()).len(),
            forall|k: Seq<char>| #[trigger] lookup(r.successful@, k) == last_success(results@, k),
    {
        let n = results.len();
        let mut r = ParallelExecutionResult::with_capacity(n);
        let mut rest = results;
        let ghost all = rest@;
        let mut i: usize = 0;
        proof {
            assert(all.take(0).filter(failed_result()) =~= Seq::<SubtaskResult>::empty());
            assert(all.take(0).filter(output_result()) =~= Seq::<SubtaskResult>::empty());
        }
        while i < n
            invariant
                n == all.len(),
                i <= n,
                rest@ == all.skip(i as int),
                r.total == n,
                r.failed@ == all.take(i as int).filter(failed_result()),
                r.failure_count == r.failed@.len(),
                r.success_count == all.take(i as int).filter(output_result()).len(),
                r.success_count <= i,
                r.failure_count <= i,
                forall|k: Seq<char>| #[trigger] lookup(r.successful@, k) == last_success(all.take(i as int), k),
            decreases n - i,
        {
            let ghost before = all.take(i as int);
            proof {
                assert(all.take(i + 1) =~= before.push(all[i as int]));
                before.lemma_filter_push(all[i as int], failed_result());
                before.lemma_filter_push(all[i as int], output_result());
                before.lemma_filter_len(failed_result());
                before.lemma_filter_len(output_result());
                assert(before.push(all[i as int]).drop_last() =~= before);
                assert(rest@.len() > 0);
                assert(rest@[0] == all[i as int]);
            }
            let result = rest.remove(0);
            proof {
                assert(rest@ =~= all.skip(i + 1));
            }
            if result.success {
                match result.output {
                    Some(output) => {
                        r.add_success(result.subtask_id, output);
                    },
                    None => {},
                }
            } else {
                r.add_failure(result);
            }
            i = i + 1;
        }
        proof {
            assert(all.take(n as int) =~= all);
        }
        r
    }

    /// Records the outcome of executing `subtask`: its output on success; on
    /// failure, a result naming its agent (empty when unassigned) and the
    /// error's text.
    pub fn record_outcome(&mut self, subtask: &SubTask, outcome: Result<Output, AgentError>)
        requires
            old(self).success_count < usize::MAX,
            old(self).failure_count < usize::MAX,
        ensures
            final(self).total == old(self).total,
            match outcome {
                Ok(o) => {
                    &&& lookup(final(self).successful@, subtask.id@) == Some(o)
                    &&& forall|k: Seq<char>| k != subtask.id@ ==>
                        #[trigger] lookup(final(self).successful@, k) == lookup(old(self).successful@, k)
                    &&& final(self).success_count == old(self).success_count + 1
                    &&& final(self).failed == old(self).failed
                    &&& final(self).failure_count == old(self).failure_count
                },
                Err(e) => {
                    &&& final(self).failed@.len() == old(self).failed@.len() + 1
                    &&& final(self).failed@.drop_last() == old(self).failed@
                    &&& failure_for(final(self).failed@.last(), *subtask, e)
                    &&& final(self).failure_count == old(self).failure_count + 1
                    &&& final(self).successful == old(self).successful
                    &&& final(self).success_count == old(self).success_count
                },
            },
    {
        match outcome {
            Ok(output) => self.add_success(subtask.id.clone(), output),
            Err(e) => {
                let r = subtask_failure(subtask, &e);
                let ghost before = self.failed@;
                self.add_failure(r);
                proof {
                    assert(self.failed@.drop_last() =~= before);
                }
            },
        }
    }
}

/// A result that records a failure.
pub open spec fn failed_result() -> spec_fn(SubtaskResult) -> bool {
    |x: SubtaskResult| !x.success
}

/// A result that records a success with an output.
pub open spec fn output_result() -> spec_fn(SubtaskResult) -> bool {
    |x: SubtaskResult| x.success && x.output is Some
}

/// The output of the last success with an output recorded for `id`.
pub open spec fn last_success(results: Seq<SubtaskResult>, id: Seq<char>) -> Option<Output>
    decreases results.len(),
{
    if results.len() == 0 {
        None
    } else {
        let r = results.last();
        if r.success && r.output is Some && r.subtask_id@ == id {
            r.output
        } else {
            last_success(results.drop_last(), id)
        }
    }
}

/// The agent a subtask was assigned to, or the empty name.
pub open spec fn assignee_or_empty(subtask: SubTask) -> Seq<char> {
    match subtask.assigned_to {
        Some(a) => a@,
        None => Seq::empty(),
    }
}

/// `r` records that `subtask` failed with `e`.
pub open spec fn failure_for(r: SubtaskResult, subtask: SubTask, e: AgentError) -> bool {
    &&& r.subtask_id@ == subtask.id@
    &&& r.agent_id@ == assignee_or_empty(subtask)
    &&& !r.success
    &&& r.error_message matches Some(m) && m@ == e.spec_message()
    &&& r.output is None
}

/// The result of a subtask that failed with `error`.
pub fn subtask_failure(subtask: &SubTask, error: &AgentError) -> (r: SubtaskResult)
    ensures
        failure_for(r, *subtask, *error),
{
    let agent: &str = match &subtask.assigned_to {
        Some(a) => a.as_str(),
        None => "",
    };
    proof {
        reveal_strlit("");
        assert(""@ =~= Seq::<char>::empty());
    }
    SubtaskResult::failure(subtask.id.as_str(), agent, error.message())
}

/// The result of executing `subtask`, by its outcome.
pub fn subtask_result(subtask: &SubTask, outcome: Result<Output, AgentError>) -> (r: SubtaskResult)
    ensures
        match outcome {
            Ok(o) => r.subtask_id@ == subtask.id@ && r.agent_id@ == assignee_or_empty(*subtask) && r.success
                && r.error_message is None && r.output == Some(o),
            Err(e) => failure_for(r, *subtask, e),
        },
{
    match outcome {
        Ok(output) => {
            let agent: &str = match &subtask.assigned_to {
                Some(a) => a.as_str(),
                None => "",
            };
            proof {
                reveal_strlit("");
                assert(""@ =~= Seq::<char>::empty());
            }
            SubtaskResult::success(subtask.id.as_str(), agent, output)
        },
        Err(e) => subtask_failure(subtask, &e),
    }
}

/// What executing a batch with partial failures allowed gives: an error
/// when every subtask failed (the first failure's message, or "All subtasks
/// failed"), else the outputs of the successes.
pub fn partial_outcome(result: ParallelExecutionResult) -> (r: Result<Vec<(String, Output)>, AgentError>)
    ensures
        !(result.success_count == 0 && result.total > 0) ==> r == Ok::<Vec<(String, Output)>, AgentError>(result.successful),
        result.success_count == 0 && result.total > 0 ==> (r matches Err(AgentError::Internal { message })
            && message@ == (if result.failed@.len() > 0 && result.failed@[0].error_message is Some {
                result.failed@[0].error_message->0@
            } else {
                "All subtasks failed"@
            })),
{
    if result.is_complete_failure() {
        if result.failed.len() > 0 {
            match &result.failed[0].error_message {
                Some(m) => return Err(AgentError::internal(m.as_str())),
                None => {},
            }
        }
        return Err(AgentError::internal("All subtasks failed"));
    }
    Ok(result.successful)
}

/// The key of the `i`-th output in fail-fast mode: `subtask_<i>` when the
/// subtasks ran in parallel, the subtask's id when they ran in turn.
pub open spec fn fail_fast_key(subtasks: Seq<SubTask>, i: int, by_index: bool) -> Seq<char> {
    if by_index { "subtask_"@ + decimal(i as nat) } else { subtasks[i].id@ }
}

/// The first failed outcome, if any.
pub open spec fn first_failure(outcomes: Seq<Result<Output, AgentError>>) -> Option<int>
    decreases outcomes.len(),
{
    if outcomes.len() == 0 {
        None
    } else if outcomes[0] is Err {
        Some(0)
    } else {
        match first_failure(outcomes.drop_first()) {
            Some(i) => Some(i + 1),
            None => None,
        }
    }
}

/// Gathers fail-fast outcomes in order: the first failure is the result;
/// otherwise each output is recorded under its key.
pub fn fail_fast_outputs(subtasks: &Vec<SubTask>, outcomes: Vec<Result<Output, AgentError>>, by_index: bool)
    -> (r: Result<Vec<(String, Output)>, AgentError>)
    requires
        outcomes@.len() <= subtasks@.len(),
    ensures
        (exists|i: int| 0 <= i < outcomes@.len() && #[trigger] outcomes@[i] is Err) ==>
            exists|i: int| 0 <= i < outcomes@.len() && #[trigger] outcomes@[i] is Err
                && (forall|j: int| 0 <= j < i ==> #[trigger] outcomes@[j] is Ok)
                && r == Err::<Vec<(String, Output)>, AgentError>(outcomes@[i]->Err_0),
        (forall|i: int| 0 <= i < outcomes@.len() ==> #[trigger] outcomes@[i] is Ok) ==>
            (r matches Ok(entries) && forall|k: Seq<char>| #[trigger] lookup(entries@, k)
                == last_keyed(subtasks@, outcomes@, by_index, k)),
{
    let n = outcomes.len();
    let ghost all = outcomes@;
    let mut rest = outcomes;
    let mut entries: Vec<(String, Output)> = Vec::new();
    let mut i: usize = 0;
    while i < n
        invariant
            n == all.len(),
            all == outcomes@,
            all.len() <= subtasks@.len(),
            i <= n,
            rest@ == all.skip(i as int),
            forall|j: int| 0 <= j < i ==> #[trigger] all[j] is Ok,
            forall|k: Seq<char>| #[trigger] lookup(entries@, k) == last_keyed(subtasks@, all.take(i as int), by_index, k),
        decreases n - i,
    {
        proof {
            assert(rest@[0] == all[i as int]);
        }
        let outcome = rest.remove(0);
        let ghost current = outcome;
        proof {
            assert(rest@ =~= all.skip(i + 1));
            assert(all.take(i + 1).drop_last() =~= all.take(i as int));
            assert(current == all[i as int]);
        }
        match outcome {
            Err(e) => {
                proof {
                    assert(all[i as int] is Err);
                    assert(e == all[i as int]->Err_0);
                    assert(outcomes@[i as int] is Err);
                }
                return Err(e);
            },
            Ok(output) => {
                let key = if by_index {
                    String::from_str("subtask_").concat(u64_to_string(i as u64).as_str())
                } else {
                    subtasks[i].id.clone()
                };
                insert_output(&mut entries, key, output);
            },
        }
        i = i + 1;
    }
    proof {
        assert(all.take(n as int) =~= all);
    }
    Ok(entries)
}

/// The output recorded last under key `k` among the first outcomes.
pub open spec fn last_keyed(subtasks: Seq<SubTask>, outcomes: Seq<Result<Output, AgentError>>, by_index: bool,
    k: Seq<char>) -> Option<Output>
    decreases outcomes.len(),
{
    if outcomes.len() == 0 {
        None
    } else {
        let i = outcomes.len() - 1;
        match outcomes[i] {
            Ok(o) => if fail_fast_key(subtasks, i, by_index) == k { Some(o) } else {
                last_keyed(subtasks, outcomes.drop_last(), by_index, k)
            },
            Err(_) => last_keyed(subtasks, outcomes.drop_last(), by_index, k),
        }
    }
}


/// A partial success is neither a complete success nor a complete failure.
pub proof fn law_partial_excludes_complete(r: ParallelExecutionResult)
    requires
        r.success_count > 0 && r.failure_count > 0,
    ensures
        !(r.failure_count == 0 && r.total > 0),
        !(r.success_count == 0 && r.total > 0),
{
}

} // verus!
