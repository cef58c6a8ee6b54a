use screen_resolution::configure::{ConfigureAction, ConfigureState};
use screen_resolution::errors::{CGError, ConfigurePhase, ModeError};

fn run(answers: &[Result<(), i32>]) -> (ConfigureState, Vec<ConfigureAction>) {
    let (mut state, first) = ConfigureState::start();
    let mut asked = vec![first];
    for answer in answers {
        let (next, action) = state.advance(*answer);
        state = next;
        asked.push(action);
    }
    (state, asked)
}

#[test]
fn the_protocol_starts_by_beginning() {
    let (state, action) = ConfigureState::start();
    assert_eq!(state, ConfigureState::Beginning);
    assert_eq!(action, ConfigureAction::Begin);
    assert_eq!(state.outcome(), None);
}

#[test]
fn begin_apply_complete() {
    let (state, asked) = run(&[Ok(()), Ok(()), Ok(())]);
    assert_eq!(state, ConfigureState::Applied);
    assert_eq!(
        asked,
        vec![
            ConfigureAction::Begin,
            ConfigureAction::Apply,
            ConfigureAction::Complete { permanent: true },
            ConfigureAction::Stop,
        ]
    );
    assert_eq!(state.outcome(), Some(Ok(())));
}

#[test]
fn failure_to_begin() {
    let (state, asked) = run(&[Err(1001)]);
    assert_eq!(asked, vec![ConfigureAction::Begin, ConfigureAction::Stop]);
    assert_eq!(
        state.outcome(),
        Some(Err(ModeError::Configuration(ConfigurePhase::Begin, CGError { error: 1001 })))
    );
}

#[test]
fn failure_to_apply_gives_the_session_up() {
    let (state, asked) = run(&[Ok(()), Err(1004)]);
    assert_eq!(state, ConfigureState::Cancelling(CGError { error: 1004 }));
    assert_eq!(
        asked,
        vec![ConfigureAction::Begin, ConfigureAction::Apply, ConfigureAction::Cancel]
    );
    assert_eq!(state.outcome(), None);
    for cancelled in [Ok(()), Err(77)] {
        let (end, action) = state.advance(cancelled);
        assert_eq!(action, ConfigureAction::Stop);
        assert_eq!(
            end.outcome(),
            Some(Err(ModeError::Configuration(ConfigurePhase::Apply, CGError { error: 1004 })))
        );
    }
}

#[test]
fn failure_to_complete() {
    let (state, asked) = run(&[Ok(()), Ok(()), Err(-1)]);
    assert_eq!(asked.last(), Some(&ConfigureAction::Stop));
    assert_eq!(
        state.outcome(),
        Some(Err(ModeError::Configuration(ConfigurePhase::Complete, CGError { error: -1 })))
    );
}

#[test]
fn an_ended_protocol_stays_ended() {
    let (state, _) = run(&[Ok(()), Ok(()), Ok(()), Err(5), Ok(())]);
    assert_eq!(state, ConfigureState::Applied);
    let (state, asked) = run(&[Err(9), Ok(()), Ok(())]);
    assert_eq!(state, ConfigureState::Failed(ConfigurePhase::Begin, CGError { error: 9 }));
    assert_eq!(asked[2], ConfigureAction::Stop);
}

#[test]
fn pending_is_what_the_state_asks() {
    assert_eq!(ConfigureState::Beginning.pending(), ConfigureAction::Begin);
    assert_eq!(ConfigureState::Applying.pending(), ConfigureAction::Apply);
    assert_eq!(ConfigureState::Completing.pending(), ConfigureAction::Complete { permanent: true });
    assert_eq!(ConfigureState::Cancelling(CGError { error: 1 }).pending(), ConfigureAction::Cancel);
    assert_eq!(ConfigureState::Applied.pending(), ConfigureAction::Stop);
}

#[test]
fn every_run_of_four_answers_has_ended() {
    let answers = [Ok(()), Err(3)];
    for a in answers {
        for b in answers {
            for c in answers {
                for d in answers {
                    let (state, asked) = run(&[a, b, c, d]);
                    assert!(state.outcome().is_some());
                    assert_eq!(asked.iter().filter(|x| **x == ConfigureAction::Begin).count(), 1);
                    let applied = asked.contains(&ConfigureAction::Apply);
                    let closed = asked.contains(&ConfigureAction::Cancel)
                        || asked.contains(&ConfigureAction::Complete { permanent: true });
                    assert_eq!(applied, closed);
                }
            }
        }
    }
}
