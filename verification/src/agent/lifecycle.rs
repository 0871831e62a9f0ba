//! The part of an agent that does not wait on anything: its identity, its
//! life-cycle state, the steps of processing a task, and the default
//! understanding, decomposition and execution of tasks.

use vstd::prelude::*;
use crate::agent::state::{AgentState, StateMachine, StateMachineView, transition_allowed};
use crate::agent::task::{Output, SubTask, Task};
use crate::error::AgentError;
use crate::ids::{is_hyphenated_uuid, new_uuid_string};
use crate::json::Json;
use crate::decomposer::sequential::generated_id;

verus! {

/// An agent's identity and life-cycle state.
pub struct AgentCore {
    id: String,
    name: String,
    state_machine: StateMachine,
}

impl AgentCore {
    pub closed spec fn spec_id(&self) -> Seq<char> {
        self.id@
    }

    pub closed spec fn spec_name(&self) -> Seq<char> {
        self.name@
    }

    /// The state machine's view.
    pub closed spec fn machine(&self) -> StateMachineView {
        self.state_machine@
    }

    pub closed spec fn wf(&self) -> bool {
        self.state_machine.wf()
    }

    /// An idle agent with a fresh state machine.
    pub fn new(id: &str, name: &str) -> (a: Self)
        ensures
            a.wf(),
            a.spec_id() == id@,
            a.spec_name() == name@,
            a.machine().current == AgentState::Idle,
            a.machine().error_message is None,
            a.machine().history == seq![(AgentState::Idle, None::<Seq<char>>)],
    {
        AgentCore { id: String::from_str(id), name: String::from_str(name), state_machine: StateMachine::new() }
    }

    pub fn id(&self) -> (s: &str)
        ensures
            s@ == self.spec_id(),
    {
        self.id.as_str()
    }

    pub fn name(&self) -> (s: &str)
        ensures
            s@ == self.spec_name(),
    {
        self.name.as_str()
    }

    pub fn state(&self) -> (s: AgentState)
        ensures
            s == self.machine().current,
    {
        *self.state_machine.current()
    }

    pub fn state_machine(&self) -> (sm: &StateMachine)
        ensures
            sm@ == self.machine(),
            self.wf() ==> sm.wf(),
    {
        &self.state_machine
    }

    /// Moves to `next` where the rules permit it.
    pub fn transition_state(&mut self, next: AgentState) -> (r: Result<(), AgentError>)
        requires
            old(self).wf(),
        ensures
            final(self).wf(),
            final(self).spec_id() == old(self).spec_id(),
            final(self).spec_name() == old(self).spec_name(),
            r is Ok <==> transition_allowed(old(self).machine().current, next),
            r is Ok ==> final(self).machine() == (StateMachineView {
                current: next,
                error_message: None,
                history: old(self).machine().history.push((next, None)),
            }),
            r is Err ==> final(self).machine() == old(self).machine(),
    {
        self.state_machine.transition(next)
    }

    /// Sets the state without consulting the rules.
    pub fn set_state(&mut self, state: AgentState)
        requires
            old(self).wf(),
        ensures
            final(self).wf(),
            final(self).spec_id() == old(self).spec_id(),
            final(self).spec_name() == old(self).spec_name(),
            final(self).machine() == (StateMachineView {
                current: state,
                error_message: None,
                history: old(self).machine().history.push((state, Some("forced"@))),
            }),
    {
        self.state_machine.force_set(state);
    }

    pub fn can_accept_task(&self) -> (b: bool)
        requires
            self.wf(),
        ensures
            b == (self.machine().current == AgentState::Idle || self.machine().current == AgentState::Completed
                || self.machine().current == AgentState::Failed),
    {
        self.state_machine.can_accept_task()
    }

    pub fn error_message(&self) -> (m: Option<&str>)
        ensures
            match m {
                Some(s) => self.machine().error_message == Some(s@),
                None => self.machine().error_message is None,
            },
    {
        self.state_machine.error_message()
    }

    /// Returns to `Idle`, clearing the error message.
    pub fn reset(&mut self)
        requires
            old(self).wf(),
        ensures
            final(self).wf(),
            final(self).spec_id() == old(self).spec_id(),
            final(self).spec_name() == old(self).spec_name(),
            final(self).machine() == (StateMachineView {
                current: AgentState::Idle,
                error_message: None,
                history: old(self).machine().history.push((AgentState::Idle, Some("reset"@))),
            }),
    {
        self.state_machine.reset();
    }

    /// Starts processing a task: an agent that cannot accept tasks refuses
    /// with an internal error naming it and its state; otherwise it enters
    /// `Running` where the rules permit.
    pub fn begin_task(&mut self) -> (r: Result<(), AgentError>)
        requires
            old(self).wf(),
        ensures
            final(self).wf(),
            final(self).spec_id() == old(self).spec_id(),
            final(self).spec_name() == old(self).spec_name(),
            ({
                let s = old(self).machine().current;
                if !(s == AgentState::Idle || s == AgentState::Completed || s == AgentState::Failed) {
                    &&& final(self).machine() == old(self).machine()
                    &&& r matches Err(AgentError::Internal { message })
                    &&& message@ == "Agent "@ + old(self).spec_id() + " cannot accept tasks in state "@ + s.spec_name()
                } else if transition_allowed(s, AgentState::Running) {
                    &&& r is Ok
                    &&& final(self).machine() == (StateMachineView {
                        current: AgentState::Running,
                        error_message: None,
                        history: old(self).machine().history.push((AgentState::Running, None)),
                    })
                } else {
                    &&& final(self).machine() == old(self).machine()
                    &&& r matches Err(AgentError::InvalidStateTransition { from, to })
                    &&& from@ == s.spec_name() && to@ == "Running"@
                }
            }),
    {
        if !self.can_accept_task() {
            let message = String::from_str("Agent ")
                .concat(self.id.as_str())
                .concat(" cannot accept tasks in state ")
                .concat(self.state_machine.current().name());
            return Err(AgentError::internal(message.as_str()));
        }
        proof {
            reveal_strlit("Running");
        }
        self.state_machine.transition(AgentState::Running)
    }

    /// Records that a step of the task failed: the agent enters `Failed`
    /// with the error's text as its error message.
    pub fn fail_task(&mut self, error: &AgentError)
        requires
            old(self).wf(),
        ensures
            final(self).wf(),
            final(self).spec_id() == old(self).spec_id(),
            final(self).spec_name() == old(self).spec_name(),
            final(self).machine() == (StateMachineView {
                current: AgentState::Failed,
                error_message: Some(error.spec_message()),
                history: old(self).machine().history.push((AgentState::Failed, Some(error.spec_message()))),
            }),
    {
        let text = error.message();
        self.state_machine.fail(text.as_str());
    }

    /// Ends a task whose steps all succeeded: the agent enters `Completed`
    /// where the rules permit.
    pub fn finish_task(&mut self) -> (r: Result<(), AgentError>)
        requires
            old(self).wf(),
        ensures
            final(self).wf(),
            final(self).spec_id() == old(self).spec_id(),
            final(self).spec_name() == old(self).spec_name(),
            r is Ok <==> transition_allowed(old(self).machine().current, AgentState::Completed),
            r is Ok ==> final(self).machine() == (StateMachineView {
                current: AgentState::Completed,
                error_message: None,
                history: old(self).machine().history.push((AgentState::Completed, None)),
            }),
            r is Err ==> final(self).machine() == old(self).machine(),
    {
        self.state_machine.transition(AgentState::Completed)
    }
}

/// The default understanding of an input: a task named `task_` and a fresh
/// UUID, described by the input, without context.
pub fn understand_input(input: &str) -> (t: Task)
    ensures
        generated_id(""@, "task_"@, t.id@),
        t.description@ == input@,
        t.context is Null,
{
    let u = new_uuid_string();
    let id = String::from_str("task_").concat(u.as_str());
    proof {
        assert(is_hyphenated_uuid(u@));
        reveal_strlit("");
        assert(id@ =~= ""@ + "task_"@ + u@);
    }
    Task { id, description: String::from_str(input), context: Json::Null }
}

/// The default decomposition: one subtask `sub_` and the task's id, with the
/// task's description and no parameters.
pub fn single_subtask(task: Task) -> (v: Vec<SubTask>)
    ensures
        v@.len() == 1,
        v@[0].id@ == "sub_"@ + task.id@,
        v@[0].parent_id == task.id,
        v@[0].description == task.description,
        v@[0].parameters is Null,
        v@[0].assigned_to is None,
{
    let id = String::from_str("sub_").concat(task.id.as_str());
    let mut v: Vec<SubTask> = Vec::new();
    v.push(SubTask {
        id,
        parent_id: task.id,
        description: task.description,
        parameters: Json::Null,
        assigned_to: None,
    });
    v
}

/// The default execution: a successful output for the subtask, without a result.
pub fn trivial_output(subtask: SubTask) -> (o: Output)
    ensures
        o.task_id == subtask.id,
        o.result is Null,
        o.success,
        match o.message { Some(m) => m@ == "Executed successfully"@, None => false },
{
    Output {
        task_id: subtask.id,
        result: Json::Null,
        success: true,
        message: Some(String::from_str("Executed successfully")),
    }
}

} // verus!
