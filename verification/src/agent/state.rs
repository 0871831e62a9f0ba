//! The life-cycle state machine of an agent.

use vstd::prelude::*;
use std::time::{Duration, Instant};
use crate::error::AgentError;
use crate::time::{duration_between, instant_now};

verus! {

/// The life-cycle state of an agent.
#[derive(Debug, Clone, Copy, PartialEq, Eq, Hash, Structural)]
pub enum AgentState {
    Idle,
    Running,
    Paused,
    Waiting,
    Cancelling,
    Completed,
    Failed,
}

impl Default for AgentState {
    fn default() -> (s: Self)
        ensures
            s == AgentState::Idle,
    {
        AgentState::Idle
    }
}

impl AgentState {
    pub open spec fn spec_name(self) -> Seq<char> {
        match self {
            AgentState::Idle => "Idle"@,
            AgentState::Running => "Running"@,
            AgentState::Paused => "Paused"@,
            AgentState::Waiting => "Waiting"@,
            AgentState::Cancelling => "Cancelling"@,
            AgentState::Completed => "Completed"@,
            AgentState::Failed => "Failed"@,
        }
    }

    /// The state's name, as it is displayed.
    pub fn name(&self) -> (s: &'static str)
        ensures
            s@ == self.spec_name(),
    {
        match self {
            AgentState::Idle => "Idle",
            AgentState::Running => "Running",
            AgentState::Paused => "Paused",
            AgentState::Waiting => "Waiting",
            AgentState::Cancelling => "Cancelling",
            AgentState::Completed => "Completed",
            AgentState::Failed => "Failed",
        }
    }
}

/// The transitions an agent may take.
pub open spec fn transition_allowed(from: AgentState, to: AgentState) -> bool {
    match (from, to) {
        (AgentState::Idle, AgentState::Running) => true,
        (AgentState::Idle, AgentState::Waiting) => true,
        (AgentState::Running, AgentState::Completed) => true,
        (AgentState::Running, AgentState::Failed) => true,
        (AgentState::Running, AgentState::Paused) => true,
        (AgentState::Running, AgentState::Waiting) => true,
        (AgentState::Running, AgentState::Cancelling) => true,
        (AgentState::Paused, AgentState::Running) => true,
        (AgentState::Paused, AgentState::Cancelling) => true,
        (AgentState::Waiting, AgentState::Running) => true,
        (AgentState::Waiting, AgentState::Cancelling) => true,
        (AgentState::Cancelling, AgentState::Completed) => true,
        (AgentState::Cancelling, AgentState::Failed) => true,
        (AgentState::Completed, AgentState::Idle) => true,
        (AgentState::Failed, AgentState::Idle) => true,
        _ => false,
    }
}

/// One entry of a state machine's history.
#[derive(Debug, Clone)]
pub struct StateRecord {
    pub state: AgentState,
    pub timestamp: Instant,
    pub reason: Option<String>,
}

impl StateRecord {
    /// A record of entering `state` now, for the given reason.
    pub fn new(state: AgentState, reason: Option<String>) -> (r: Self)
        ensures
            r.state == state,
            r.reason == reason,
    {
        StateRecord { state, timestamp: instant_now(), reason }
    }
}

/// A permitted transition.
#[derive(Debug, Clone, Copy)]
pub struct TransitionRule {
    pub from: AgentState,
    pub to: AgentState,
}

impl TransitionRule {
    pub fn new(from: AgentState, to: AgentState) -> (r: Self)
        ensures
            r.from == from,
            r.to == to,
    {
        TransitionRule { from, to }
    }

    pub open spec fn spec_matches(self, from: AgentState, to: AgentState) -> bool {
        self.from == from && self.to == to
    }

    /// Whether this rule permits going from `from` to `to`.
    pub fn matches(&self, from: AgentState, to: AgentState) -> (b: bool)
        ensures
            b == self.spec_matches(from, to),
    {
        self.from == from && self.to == to
    }
}

/// The rule table every state machine is built with.
pub open spec fn default_rules() -> Seq<(AgentState, AgentState)> {
    seq![
        (AgentState::Idle, AgentState::Running),
        (AgentState::Idle, AgentState::Waiting),
        (AgentState::Running, AgentState::Completed),
        (AgentState::Running, AgentState::Failed),
        (AgentState::Running, AgentState::Paused),
        (AgentState::Running, AgentState::Waiting),
        (AgentState::Running, AgentState::Cancelling),
        (AgentState::Paused, AgentState::Running),
        (AgentState::Paused, AgentState::Cancelling),
        (AgentState::Waiting, AgentState::Running),
        (AgentState::Waiting, AgentState::Cancelling),
        (AgentState::Cancelling, AgentState::Completed),
        (AgentState::Cancelling, AgentState::Failed),
        (AgentState::Completed, AgentState::Idle),
        (AgentState::Failed, AgentState::Idle),
    ]
}

/// The rule table lists exactly the allowed transitions.
pub proof fn lemma_default_rules_complete(from: AgentState, to: AgentState)
    ensures
        transition_allowed(from, to) <==> exists|i: int|
            0 <= i < default_rules().len() && #[trigger] default_rules()[i] == (from, to),
{
    let r = default_rules();
    assert(r[0] == (AgentState::Idle, AgentState::Running));
    assert(r[1] == (AgentState::Idle, AgentState::Waiting));
    assert(r[2] == (AgentState::Running, AgentState::Completed));
    assert(r[3] == (AgentState::Running, AgentState::Failed));
    assert(r[4] == (AgentState::Running, AgentState::Paused));
    assert(r[5] == (AgentState::Running, AgentState::Waiting));
    assert(r[6] == (AgentState::Running, AgentState::Cancelling));
    assert(r[7] == (AgentState::Paused, AgentState::Running));
    assert(r[8] == (AgentState::Paused, AgentState::Cancelling));
    assert(r[9] == (AgentState::Waiting, AgentState::Running));
    assert(r[10] == (AgentState::Waiting, AgentState::Cancelling));
    assert(r[11] == (AgentState::Cancelling, AgentState::Completed));
    assert(r[12] == (AgentState::Cancelling, AgentState::Failed));
    assert(r[13] == (AgentState::Completed, AgentState::Idle));
    assert(r[14] == (AgentState::Failed, AgentState::Idle));
    assert(r.len() == 15);
}

/// The abstract state of a state machine: the current state, the error
/// message, and the history of (state, reason) pairs, oldest first.
pub struct StateMachineView {
    pub current: AgentState,
    pub error_message: Option<Seq<char>>,
    pub history: Seq<(AgentState, Option<Seq<char>>)>,
}

/// Tracks an agent's state, permits only the transitions of the rule table,
/// and records every state it enters.
pub struct StateMachine {
    current: AgentState,
    error_message: Option<String>,
    history: Vec<StateRecord>,
    rules: Vec<TransitionRule>,
}

pub open spec fn opt_view(o: Option<String>) -> Option<Seq<char>> {
    match o {
        Some(s) => Some(s@),
        None => None,
    }
}

pub open spec fn record_view(r: StateRecord) -> (AgentState, Option<Seq<char>>) {
    (r.state, opt_view(r.reason))
}

impl View for StateMachine {
    type V = StateMachineView;

    closed spec fn view(&self) -> StateMachineView {
        StateMachineView {
            current: self.current,
            error_message: opt_view(self.error_message),
            history: self.history@.map_values(|r: StateRecord| record_view(r)),
        }
    }
}

impl StateMachine {
    /// The machine's invariant: it holds the default rule table, its history
    /// is never empty, and the newest history entry is the current state.
    pub closed spec fn wf(&self) -> bool {
        &&& self.rules@.len() == default_rules().len()
        &&& forall|i: int| 0 <= i < self.rules@.len() ==>
            (#[trigger] self.rules@[i]).from == default_rules()[i].0 && self.rules@[i].to == default_rules()[i].1
        &&& self.history@.len() >= 1
        &&& self.history@.last().state == self.current
    }

    pub proof fn lemma_wf_view(&self)
        requires
            self.wf(),
        ensures
            self@.history.len() >= 1,
            self@.history.last().0 == self@.current,
    {
    }

    fn push_record(&mut self, state: AgentState, reason: Option<String>)
        ensures
            final(self).current == old(self).current,
            final(self).error_message == old(self).error_message,
            final(self).rules == old(self).rules,
            final(self).history@.len() == old(self).history@.len() + 1,
            final(self)@.history == old(self)@.history.push((state, opt_view(reason))),
            final(self).history@.last().state == state,
    {
        let ghost old_hist = self.history@;
        let rec = StateRecord::new(state, reason);
        self.history.push(rec);
        proof {
            assert(self.history@ == old_hist.push(rec));
            assert(self@.history =~= old_hist.map_values(|r: StateRecord| record_view(r)).push(record_view(rec)));
        }
    }

    /// A machine in `Idle`, with the default rules and a history holding that
    /// first state.
    pub fn new() -> (sm: Self)
        ensures
            sm.wf(),
            sm@.current == AgentState::Idle,
            sm@.error_message is None,
            sm@.history == seq![(AgentState::Idle, None::<Seq<char>>)],
    {
        let mut rules: Vec<TransitionRule> = Vec::new();
        rules.push(TransitionRule::new(AgentState::Idle, AgentState::Running));
        rules.push(TransitionRule::new(AgentState::Idle, AgentState::Waiting));
        rules.push(TransitionRule::new(AgentState::Running, AgentState::Completed));
        rules.push(TransitionRule::new(AgentState::Running, AgentState::Failed));
        rules.push(TransitionRule::new(AgentState::Running, AgentState::Paused));
        rules.push(TransitionRule::new(AgentState::Running, AgentState::Waiting));
        rules.push(TransitionRule::new(AgentState::Running, AgentState::Cancelling));
        rules.push(TransitionRule::new(AgentState::Paused, AgentState::Running));
        rules.push(TransitionRule::new(AgentState::Paused, AgentState::Cancelling));
        rules.push(TransitionRule::new(AgentState::Waiting, AgentState::Running));
        rules.push(TransitionRule::new(AgentState::Waiting, AgentState::Cancelling));
        rules.push(TransitionRule::new(AgentState::Cancelling, AgentState::Completed));
        rules.push(TransitionRule::new(AgentState::Cancelling, AgentState::Failed));
        rules.push(TransitionRule::new(AgentState::Completed, AgentState::Idle));
        rules.push(TransitionRule::new(AgentState::Failed, AgentState::Idle));
        let mut sm = StateMachine {
            current: AgentState::Idle,
            error_message: None,
            history: Vec::new(),
            rules,
        };
        sm.push_record(AgentState::Idle, None);
        proof {
            assert(sm@.history =~= seq![(AgentState::Idle, None::<Seq<char>>)]);
        }
        sm
    }

    /// The current state.
    pub fn current(&self) -> (s: &AgentState)
        ensures
            *s == self@.current,
    {
        &self.current
    }

    /// The message of the failure that put the machine in `Failed`, if any.
    pub fn error_message(&self) -> (m: Option<&str>)
        ensures
            m matches Some(s) ==> self@.error_message == Some(s@),
            m is None <==> self@.error_message is None,
    {
        match &self.error_message {
            Some(s) => Some(s.as_str()),
            None => None,
        }
    }

    /// Every state entered so far, oldest first.
    pub fn history(&self) -> (h: &[StateRecord])
        ensures
            h@.map_values(|r: StateRecord| record_view(r)) == self@.history,
    {
        self.history.as_slice()
    }

    /// Whether the rule table permits going from the current state to `to`.
    pub fn is_valid_transition(&self, to: AgentState) -> (b: bool)
        requires
            self.wf(),
        ensures
            b == transition_allowed(self@.current, to),
    {
        let n = self.rules.len();
        let mut i: usize = 0;
        while i < n
            invariant
                n == self.rules@.len(),
                self.wf(),
                0 <= i <= n,
                forall|j: int| 0 <= j < i ==> !(#[trigger] self.rules@[j]).spec_matches(self.current, to),
            decreases n - i,
        {
            if self.rules[i].matches(self.current, to) {
                proof {
                    lemma_default_rules_complete(self.current, to);
                    assert(default_rules()[i as int] == (self.current, to));
                }
                return true;
            }
            i = i + 1;
        }
        proof {
            lemma_default_rules_complete(self.current, to);
            if transition_allowed(self.current, to) {
                let k = choose|k: int| 0 <= k < default_rules().len() && #[trigger] default_rules()[k] == (self.current, to);
                assert(self.rules@[k].spec_matches(self.current, to));
            }
        }
        false
    }

    fn invalid_transition_error(&self, next: AgentState) -> (e: AgentError)
        ensures
            e matches AgentError::InvalidStateTransition { from, to }
                && from@ == self.current.spec_name() && to@ == next.spec_name(),
    {
        AgentError::InvalidStateTransition {
            from: String::from_str(self.current.name()),
            to: String::from_str(next.name()),
        }
    }

    /// Moves to `next` if the rules permit it, clearing the error message and
    /// recording the new state; otherwise leaves the machine unchanged and
    /// reports the refused transition.
    pub fn transition(&mut self, next: AgentState) -> (r: Result<(), AgentError>)
        requires
            old(self).wf(),
        ensures
            final(self).wf(),
            r is Ok <==> transition_allowed(old(self)@.current, next),
            r is Ok ==> final(self)@ == (StateMachineView {
                current: next,
                error_message: None,
                history: old(self)@.history.push((next, None)),
            }),
            r is Err ==> final(self)@ == old(self)@,
            r matches Err(e) ==> e matches AgentError::InvalidStateTransition { from, to }
                && from@ == old(self)@.current.spec_name() && to@ == next.spec_name(),
    {
        if self.is_valid_transition(next) {
            self.current = next;
            self.error_message = None;
            self.push_record(next, None);
            Ok(())
        } else {
            Err(self.invalid_transition_error(next))
        }
    }

    /// Like `transition`, recording `reason` with the new state; entering
    /// `Failed` keeps `reason` as the error message, any other state leaves
    /// the error message as it was.
    pub fn transition_with_reason(&mut self, next: AgentState, reason: &str) -> (r: Result<(), AgentError>)
        requires
            old(self).wf(),
        ensures
            final(self).wf(),
            r is Ok <==> transition_allowed(old(self)@.current, next),
            r is Ok ==> final(self)@ == (StateMachineView {
                current: next,
                error_message: if next == AgentState::Failed { Some(reason@) } else { old(self)@.error_message },
                history: old(self)@.history.push((next, Some(reason@))),
            }),
            r is Err ==> final(self)@ == old(self)@,
            r matches Err(e) ==> e matches AgentError::InvalidStateTransition { from, to }
                && from@ == old(self)@.current.spec_name() && to@ == next.spec_name(),
    {
        let reason_str = String::from_str(reason);
        if self.is_valid_transition(next) {
            self.current = next;
            self.push_record(next, Some(reason_str.clone()));
            if next == AgentState::Failed {
                self.error_message = Some(reason_str);
            }
            Ok(())
        } else {
            Err(self.invalid_transition_error(next))
        }
    }

    /// Enters `Failed` from any state, keeping `error` as the error message.
    pub fn fail(&mut self, error: &str)
        requires
            old(self).wf(),
        ensures
            final(self).wf(),
            final(self)@ == (StateMachineView {
                current: AgentState::Failed,
                error_message: Some(error@),
                history: old(self)@.history.push((AgentState::Failed, Some(error@))),
            }),
    {
        let error_str = String::from_str(error);
        self.current = AgentState::Failed;
        self.error_message = Some(error_str.clone());
        self.push_record(AgentState::Failed, Some(error_str));
    }

    /// Sets the state without consulting the rules, clearing the error message.
    pub fn force_set(&mut self, state: AgentState)
        requires
            old(self).wf(),
        ensures
            final(self).wf(),
            final(self)@ == (StateMachineView {
                current: state,
                error_message: None,
                history: old(self)@.history.push((state, Some("forced"@))),
            }),
    {
        self.current = state;
        self.error_message = None;
        self.push_record(state, Some(String::from_str("forced")));
    }

    /// Returns to `Idle` from any state, clearing the error message.
    pub fn reset(&mut self)
        requires
            old(self).wf(),
        ensures
            final(self).wf(),
            final(self)@ == (StateMachineView {
                current: AgentState::Idle,
                error_message: None,
                history: old(self)@.history.push((AgentState::Idle, Some("reset"@))),
            }),
    {
        self.current = AgentState::Idle;
        self.error_message = None;
        self.push_record(AgentState::Idle, Some(String::from_str("reset")));
    }

    /// `Completed` and `Failed` are terminal.
    pub fn is_terminal(&self) -> (b: bool)
        ensures
            b == (self@.current == AgentState::Completed || self@.current == AgentState::Failed),
    {
        self.current == AgentState::Completed || self.current == AgentState::Failed
    }

    pub fn is_running(&self) -> (b: bool)
        ensures
            b == (self@.current == AgentState::Running),
    {
        self.current == AgentState::Running
    }

    pub fn is_failed(&self) -> (b: bool)
        ensures
            b == (self@.current == AgentState::Failed),
    {
        self.current == AgentState::Failed
    }

    /// An agent takes a new task when idle or done with the previous one.
    pub fn can_accept_task(&self) -> (b: bool)
        ensures
            b == (self@.current == AgentState::Idle || self@.current == AgentState::Completed
                || self@.current == AgentState::Failed),
    {
        self.current == AgentState::Idle || self.current == AgentState::Completed
            || self.current == AgentState::Failed
    }

    /// The time between the last two history entries, if there are two.
    pub fn last_state_duration(&self) -> (d: Option<Duration>)
        ensures
            d is Some <==> self@.history.len() >= 2,
    {
        let n = self.history.len();
        if n >= 2 {
            let current = &self.history[n - 1];
            let previous = &self.history[n - 2];
            Some(duration_between(&current.timestamp, &previous.timestamp))
        } else {
            None
        }
    }
}

impl Default for StateMachine {
    fn default() -> (sm: Self)
        ensures
            sm.wf(),
            sm@.current == AgentState::Idle,
            sm@.error_message is None,
    {
        StateMachine::new()
    }
}


/// Terminal states lead nowhere but back to `Idle`.
pub proof fn law_terminal_states_only_reset(from: AgentState, to: AgentState)
    requires
        from == AgentState::Completed || from == AgentState::Failed,
        transition_allowed(from, to),
    ensures
        to == AgentState::Idle,
{
}

/// `Idle` is entered by a transition only from a terminal state.
pub proof fn law_idle_only_after_terminal(from: AgentState)
    requires
        transition_allowed(from, AgentState::Idle),
    ensures
        from == AgentState::Completed || from == AgentState::Failed,
{
}

/// A task's life cycle: `Idle`, `Running`, `Completed`, and back to `Idle`.
pub proof fn law_lifecycle_is_a_cycle()
    ensures
        transition_allowed(AgentState::Idle, AgentState::Running),
        transition_allowed(AgentState::Running, AgentState::Completed),
        transition_allowed(AgentState::Completed, AgentState::Idle),
        transition_allowed(AgentState::Running, AgentState::Failed),
        transition_allowed(AgentState::Failed, AgentState::Idle),
{
}

/// In a well-formed machine the newest history entry is the current state.
pub proof fn law_history_ends_at_current(sm: StateMachine)
    requires
        sm.wf(),
    ensures
        sm@.history.len() >= 1,
        sm@.history.last().0 == sm@.current,
{
    sm.lemma_wf_view();
}

/// No state leads to itself.
pub proof fn law_no_self_transitions(s: AgentState)
    ensures
        !transition_allowed(s, s),
{
}

/// A task ends, completed or failed, only from `Running` or `Cancelling`;
/// cancelling always ends the task one way or the other.
pub proof fn law_tasks_end_from_running_or_cancelling(from: AgentState, to: AgentState)
    ensures
        (to == AgentState::Completed || to == AgentState::Failed) && transition_allowed(from, to)
            ==> from == AgentState::Running || from == AgentState::Cancelling,
        from == AgentState::Cancelling && transition_allowed(from, to)
            ==> to == AgentState::Completed || to == AgentState::Failed,
        transition_allowed(AgentState::Cancelling, AgentState::Completed),
        transition_allowed(AgentState::Cancelling, AgentState::Failed),
{
}

/// A running task can be paused, made to wait, or cancelled; a paused or
/// waiting one can only resume running or be cancelled.
pub proof fn law_pause_wait_and_cancel(to: AgentState)
    ensures
        transition_allowed(AgentState::Running, AgentState::Paused),
        transition_allowed(AgentState::Running, AgentState::Waiting),
        transition_allowed(AgentState::Running, AgentState::Cancelling),
        transition_allowed(AgentState::Paused, to) <==> to == AgentState::Running || to == AgentState::Cancelling,
        transition_allowed(AgentState::Waiting, to) <==> to == AgentState::Running || to == AgentState::Cancelling,
        transition_allowed(AgentState::Idle, to) <==> to == AgentState::Running || to == AgentState::Waiting,
{
}

} // verus!
