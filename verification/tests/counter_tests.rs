use budbuddy::counter::{take_puffs, CounterError, CounterTable};
use budbuddy::reset_flow::{
    handle_reset_signal, ResetAction, ResetChoice, ResetFlow, ResetSignal, ResetState,
};

#[test]
fn first_take_creates_the_row_and_returns_one() {
    let mut users = CounterTable::new();
    assert!(!users.contains(7));
    assert_eq!(users.take_puff(7), Ok(1));
    assert!(users.contains(7));
    assert_eq!(users.puffs_of(7), Some(1));
}

#[test]
fn takes_advance_the_counter_by_exactly_one_each() {
    let mut users = CounterTable::new();
    for expected in 1..=5u64 {
        assert_eq!(users.take_puff(42), Ok(expected));
    }
    assert_eq!(users.puffs_of(42), Some(5));
}

#[test]
fn blacklisted_actor_is_refused_and_counter_never_moves() {
    let mut users = CounterTable::new();
    users.set_blacklisted(9, true);
    for _ in 0..3 {
        assert_eq!(users.take_puff(9), Err(CounterError::Blacklisted));
    }
    assert_eq!(users.puffs_of(9), Some(0));
    assert!(users.is_blacklisted(9));
    assert!(!users.is_blacklisted(10), "an absent row is not blacklisted");
}

#[test]
fn ensure_row_is_idempotent() {
    let mut users = CounterTable::new();
    users.ensure_row(3);
    users.ensure_row(3);
    assert_eq!(users.puffs_of(3), Some(0));
    users.take_puff(3).unwrap();
    users.ensure_row(3);
    assert_eq!(users.puffs_of(3), Some(1), "ensure on an existing row is a no-op");
}

#[test]
fn increment_without_a_row_reports_the_missing_row() {
    let mut users = CounterTable::new();
    assert_eq!(users.increment(1), Err(CounterError::MissingRow));
}

#[test]
fn guild_refusal_does_not_roll_back_the_user_take() {
    let mut users = CounterTable::new();
    let mut guilds = CounterTable::new();
    guilds.set_blacklisted(100, true);

    let (user_result, guild_result) = take_puffs(&mut users, &mut guilds, 7, Some(100));
    assert_eq!(user_result, Ok(1));
    assert_eq!(guild_result, Some(Err(CounterError::Blacklisted)));
    assert_eq!(users.puffs_of(7), Some(1));
    assert_eq!(guilds.puffs_of(100), Some(0));
}

#[test]
fn refused_user_take_skips_the_guild_entirely() {
    let mut users = CounterTable::new();
    let mut guilds = CounterTable::new();
    users.set_blacklisted(7, true);

    let (user_result, guild_result) = take_puffs(&mut users, &mut guilds, 7, Some(100));
    assert_eq!(user_result, Err(CounterError::Blacklisted));
    assert_eq!(guild_result, None);
    assert!(!guilds.contains(100));
}

#[test]
fn take_outside_a_guild_touches_only_the_user() {
    let mut users = CounterTable::new();
    let mut guilds = CounterTable::new();

    let (user_result, guild_result) = take_puffs(&mut users, &mut guilds, 7, None);
    assert_eq!(user_result, Ok(1));
    assert_eq!(guild_result, None);
    assert!(!guilds.contains(100));
}

#[test]
fn owner_confirm_clears_the_counter_exactly_once() {
    let mut users = CounterTable::new();
    for _ in 0..3 {
        users.take_puff(5).unwrap();
    }
    let mut flow = ResetFlow::prompt(77, 5);

    let press = ResetSignal::Press { token: 77, actor: 5, choice: ResetChoice::Confirm };
    assert_eq!(handle_reset_signal(&mut flow, &mut users, press), ResetAction::ClearCounter);
    assert_eq!(flow.state, ResetState::Confirmed);
    assert_eq!(users.puffs_of(5), Some(0));

    users.take_puff(5).unwrap();
    assert_eq!(
        handle_reset_signal(&mut flow, &mut users, press),
        ResetAction::Ignore,
        "a terminal flow never processes another signal"
    );
    assert_eq!(users.puffs_of(5), Some(1));
}

#[test]
fn cancel_ends_the_flow_without_mutation() {
    let mut users = CounterTable::new();
    users.take_puff(5).unwrap();
    let mut flow = ResetFlow::prompt(77, 5);

    let press = ResetSignal::Press { token: 77, actor: 5, choice: ResetChoice::Cancel };
    assert_eq!(handle_reset_signal(&mut flow, &mut users, press), ResetAction::WithdrawPrompt);
    assert_eq!(flow.state, ResetState::Canceled);
    assert_eq!(users.puffs_of(5), Some(1));
}

#[test]
fn foreign_actor_and_foreign_token_are_ignored() {
    let mut users = CounterTable::new();
    users.take_puff(5).unwrap();
    let mut flow = ResetFlow::prompt(77, 5);

    let other_actor = ResetSignal::Press { token: 77, actor: 6, choice: ResetChoice::Confirm };
    assert_eq!(handle_reset_signal(&mut flow, &mut users, other_actor), ResetAction::Ignore);
    assert_eq!(flow.state, ResetState::Prompted);

    let other_token = ResetSignal::Press { token: 78, actor: 5, choice: ResetChoice::Confirm };
    assert_eq!(handle_reset_signal(&mut flow, &mut users, other_token), ResetAction::Ignore);
    assert_eq!(flow.state, ResetState::Prompted);
    assert_eq!(users.puffs_of(5), Some(1));

    let owner = ResetSignal::Press { token: 77, actor: 5, choice: ResetChoice::Confirm };
    assert_eq!(
        handle_reset_signal(&mut flow, &mut users, owner),
        ResetAction::ClearCounter,
        "the prompt still stands for its owner after ignored presses"
    );
    assert_eq!(users.puffs_of(5), Some(0));
}

#[test]
fn elapsed_window_times_out_without_mutation() {
    let mut users = CounterTable::new();
    users.take_puff(5).unwrap();
    let mut flow = ResetFlow::prompt(77, 5);

    assert_eq!(handle_reset_signal(&mut flow, &mut users, ResetSignal::Elapsed), ResetAction::Ignore);
    assert_eq!(flow.state, ResetState::TimedOut);
    assert_eq!(users.puffs_of(5), Some(1));

    let late = ResetSignal::Press { token: 77, actor: 5, choice: ResetChoice::Confirm };
    assert_eq!(handle_reset_signal(&mut flow, &mut users, late), ResetAction::Ignore);
    assert_eq!(users.puffs_of(5), Some(1));
}

#[test]
fn reset_without_a_row_changes_nothing() {
    let mut users = CounterTable::new();
    assert!(!users.reset(1));
    assert!(!users.contains(1));
}

#[test]
fn reset_keeps_the_moderation_flag() {
    let mut users = CounterTable::new();
    users.take_puff(2).unwrap();
    users.set_blacklisted(2, true);
    assert!(users.reset(2));
    assert_eq!(users.puffs_of(2), Some(0));
    assert!(users.is_blacklisted(2));
}
