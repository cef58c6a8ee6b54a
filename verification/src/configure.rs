//! The protocol that commits a mode to a display: begin a configuration
//! session, apply the mode to it, complete it for good. The library decides
//! each step from the platform's answer to the step before; the caller asks
//! the platform.

use crate::errors::{CGError, ConfigurePhase, ModeError};
use vstd::prelude::*;

verus! {

/// What the caller is to ask of the platform next.
#[derive(Clone, Copy, Debug, PartialEq, Eq, Structural)]
pub enum ConfigureAction {
    /// Open a configuration session.
    Begin,
    /// Hand the mode to the open session.
    Apply,
    /// Commit the session; `permanent` asks for a change that outlasts the
    /// run.
    Complete { permanent: bool },
    /// Give the open session up.
    Cancel,
    /// Nothing: the protocol has ended.
    Stop,
}

/// Where the protocol stands.
#[derive(Clone, Copy, Debug, PartialEq, Eq, Structural)]
pub enum ConfigureState {
    /// The session is being opened.
    Beginning,
    /// The session is open and the mode is being applied.
    Applying,
    /// The session is open and is being committed.
    Completing,
    /// The mode could not be applied, with this code, and the open session
    /// is being given up.
    Cancelling(CGError),
    /// The mode has been committed.
    Applied,
    /// The platform failed at this phase with this code.
    Failed(ConfigurePhase, CGError),
}

impl ConfigureState {
    /// What the platform is asked in this state.
    pub open spec fn action(self) -> ConfigureAction {
        match self {
            ConfigureState::Beginning => ConfigureAction::Begin,
            ConfigureState::Applying => ConfigureAction::Apply,
            ConfigureState::Completing => ConfigureAction::Complete { permanent: true },
            ConfigureState::Cancelling(_) => ConfigureAction::Cancel,
            ConfigureState::Applied => ConfigureAction::Stop,
            ConfigureState::Failed(_, _) => ConfigureAction::Stop,
        }
    }

    /// Whether the protocol has ended.
    pub open spec fn finished(self) -> bool {
        self is Applied || self is Failed
    }

    /// Whether a session is open in this state.
    pub open spec fn session_open(self) -> bool {
        self is Applying || self is Completing || self is Cancelling
    }

    /// The state that follows on the platform's answer to what was asked: a
    /// failure to begin or to complete ends the protocol with that phase; a
    /// failure to apply has the session given up first and then ends it with
    /// the phase of applying, whatever the platform says of the giving up.
    pub open spec fn next(self, answer: Result<(), i32>) -> ConfigureState {
        match self {
            ConfigureState::Beginning => match answer {
                Ok(_) => ConfigureState::Applying,
                Err(code) => ConfigureState::Failed(ConfigurePhase::Begin, CGError { error: code }),
            },
            ConfigureState::Applying => match answer {
                Ok(_) => ConfigureState::Completing,
                Err(code) => ConfigureState::Cancelling(CGError { error: code }),
            },
            ConfigureState::Completing => match answer {
                Ok(_) => ConfigureState::Applied,
                Err(code) => ConfigureState::Failed(
                    ConfigurePhase::Complete,
                    CGError { error: code },
                ),
            },
            ConfigureState::Cancelling(e) => ConfigureState::Failed(ConfigurePhase::Apply, e),
            ConfigureState::Applied => self,
            ConfigureState::Failed(_, _) => self,
        }
    }

    /// How the protocol ended, once it has.
    pub open spec fn result(self) -> Option<Result<(), ModeError>> {
        match self {
            ConfigureState::Applied => Some(Ok(())),
            ConfigureState::Failed(phase, e) => Some(Err(ModeError::Configuration(phase, e))),
            _ => None,
        }
    }

    /// The state after each of `answers` in turn.
    pub open spec fn after(self, answers: Seq<Result<(), i32>>) -> ConfigureState
        decreases answers.len(),
    {
        if answers.len() == 0 {
            self
        } else {
            self.after(answers.drop_last()).next(answers.last())
        }
    }

    /// Starts the protocol: the session is to be begun.
    pub fn start() -> (r: (ConfigureState, ConfigureAction))
        ensures
            r.0 == ConfigureState::Beginning,
            r.1 == ConfigureAction::Begin,
    {
        (ConfigureState::Beginning, ConfigureAction::Begin)
    }

    /// What is to be asked in this state.
    pub fn pending(&self) -> (action: ConfigureAction)
        ensures
            action == self.action(),
    {
        match self {
            ConfigureState::Beginning => ConfigureAction::Begin,
            ConfigureState::Applying => ConfigureAction::Apply,
            ConfigureState::Completing => ConfigureAction::Complete { permanent: true },
            ConfigureState::Cancelling(_) => ConfigureAction::Cancel,
            ConfigureState::Applied => ConfigureAction::Stop,
            ConfigureState::Failed(_, _) => ConfigureAction::Stop,
        }
    }

    /// Takes the platform's answer to what was asked and says where the
    /// protocol stands now and what is to be asked next.
    pub fn advance(self, answer: Result<(), i32>) -> (r: (ConfigureState, ConfigureAction))
        ensures
            r.0 == self.next(answer),
            r.1 == self.next(answer).action(),
    {
        let next = match self {
            ConfigureState::Beginning => match answer {
                Ok(_) => ConfigureState::Applying,
                Err(code) => ConfigureState::Failed(ConfigurePhase::Begin, CGError::from(code)),
            },
            ConfigureState::Applying => match answer {
                Ok(_) => ConfigureState::Completing,
                Err(code) => ConfigureState::Cancelling(CGError::from(code)),
            },
            ConfigureState::Completing => match answer {
                Ok(_) => ConfigureState::Applied,
                Err(code) => ConfigureState::Failed(ConfigurePhase::Complete, CGError::from(code)),
            },
            ConfigureState::Cancelling(e) => ConfigureState::Failed(ConfigurePhase::Apply, e),
            ConfigureState::Applied => self,
            ConfigureState::Failed(_, _) => self,
        };
        let action = next.pending();
        (next, action)
    }

    /// How the protocol ended, or `None` while it has not.
    pub fn outcome(&self) -> (r: Option<Result<(), ModeError>>)
        ensures
            r == self.result(),
    {
        match self {
            ConfigureState::Applied => Some(Ok(())),
            ConfigureState::Failed(phase, e) => Some(Err(ModeError::Configuration(*phase, *e))),
            _ => None,
        }
    }
}

/// A session is opened by a successful begin and by nothing else.
pub proof fn lemma_session_opens_on_begin(state: ConfigureState, answer: Result<(), i32>)
    requires
        !state.session_open(),
        state.next(answer).session_open(),
    ensures
        state == ConfigureState::Beginning,
        answer is Ok,
{
}

/// An open session ends only on the answer to completing it or to giving it
/// up: on no path is the protocol left with a session open.
pub proof fn lemma_session_closes(state: ConfigureState, answer: Result<(), i32>)
    requires
        state.session_open(),
        !state.next(answer).session_open(),
    ensures
        state.action() == (ConfigureAction::Complete { permanent: true }) || state.action()
            == ConfigureAction::Cancel,
        state.next(answer).finished(),
{
}

/// The protocol has ended after four answers at most, whatever they are, and
/// never with a session open.
pub proof fn lemma_protocol_ends(answers: Seq<Result<(), i32>>)
    requires
        answers.len() >= 4,
    ensures
        ConfigureState::Beginning.after(answers).finished(),
    decreases answers.len(),
{
    let start = ConfigureState::Beginning;
    if answers.len() == 4 {
        let a1 = answers.take(1);
        let a2 = answers.take(2);
        let a3 = answers.take(3);
        assert(a1.drop_last() =~= Seq::<Result<(), i32>>::empty());
        assert(a2.drop_last() =~= a1);
        assert(a3.drop_last() =~= a2);
        assert(answers.drop_last() =~= a3);
        assert(start.after(a1.drop_last()) == start);
        assert(start.after(a1) == start.next(a1.last()));
        assert(start.after(a2) == start.after(a1).next(a2.last()));
        assert(start.after(a3) == start.after(a2).next(a3.last()));
    } else {
        lemma_protocol_ends(answers.drop_last());
    }
}

/// The mode is committed exactly where the platform answered begin, apply
/// and complete with success.
pub proof fn lemma_applied_iff_all_succeed(
    begun: Result<(), i32>,
    applied: Result<(), i32>,
    completed: Result<(), i32>,
)
    ensures
        ConfigureState::Beginning.next(begun).next(applied).next(completed)
            == ConfigureState::Applied <==> begun is Ok && applied is Ok && completed is Ok,
{
}

} // verus!
