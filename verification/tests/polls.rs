use mealbot::button::ButtonKind;
use mealbot::dispatch::{CallbackContext, MessageRef};
use mealbot::meal::Meal;
use mealbot::poll::{blended_rating, record_sent_poll, Poll, PollKind, PollUpdate};
use mealbot::request::{MsgText, Note, RequestKind};
use mealbot::state::{Config, State};
use mealbot::store::HasId;

fn test_state() -> State {
    State::new(Config {
        password: "SECRET-REDACTED".to_string(),
        name: "bot".to_string(),
        backup: false,
    })
}

fn ctx(chat_id: i64) -> CallbackContext {
    CallbackContext {
        callback_id: "cb".to_string(),
        chat_id,
        message: Some(MessageRef { message_id: 42, has_photo: false }),
        inline_message_id: None,
        username: Some("alice".to_string()),
        user_id: 9,
    }
}

/// Starts a rating poll for a fresh meal and returns the stored poll record.
fn start_rating_poll(state: &mut State, rating: Option<u8>) -> (Meal, Poll) {
    let mut meal = Meal::new(&"curry".to_string(), 5, 9);
    meal.rate(rating);
    meal.save(state);
    let out = ButtonKind::PollRating { meal_id: meal.id.clone() }.execute(state, &ctx(5));
    let builder = match out.requests.into_iter().nth(1).unwrap() {
        RequestKind::Poll { builder, .. } => builder,
        _ => panic!("expected a poll request"),
    };
    record_sent_poll(state, &builder, "ext42".to_string(), 90);
    let poll = state.polls.get(&builder.id).unwrap();
    (meal, poll)
}

#[test]
fn rating_blend_follows_the_formula() {
    // ten votes on the middle option: average three stars
    let votes: Vec<u32> = vec![0, 0, 10, 0, 0];
    assert_eq!(blended_rating(&votes, Some(3)), Some(3));
    // an unrated meal collapses to the average exactly
    assert_eq!(blended_rating(&votes, None), Some(3));
    // a prior pulls the blend: avg 5, prior 1, floor((5 + 1) / 2) = 3
    let fives: Vec<u32> = vec![0, 0, 0, 0, 4];
    assert_eq!(blended_rating(&fives, Some(1)), Some(3));
    // avg floor((1*1 + 2*0 + 3*0 + 4*0 + 5*1) / 2) = 3, prior 2: floor(5/2) = 2
    let split: Vec<u32> = vec![1, 0, 0, 0, 1];
    assert_eq!(blended_rating(&split, Some(2)), Some(2));
    // nobody voted: nothing to fold
    let empty: Vec<u32> = vec![0, 0, 0, 0, 0];
    assert_eq!(blended_rating(&empty, Some(4)), None);
}

#[test]
fn closed_poll_with_votes_blends_the_rating() {
    let mut state = test_state();
    let (meal, poll) = start_rating_poll(&mut state, Some(3));
    let update = PollUpdate { is_closed: true, option_votes: vec![0, 0, 0, 0, 7] };
    let out = poll.handle_votes(&mut state, &update);
    // avg 5 blended with prior 3: floor(8 / 2) = 4
    assert_eq!(state.meals.get(&meal.id).unwrap().rating, Some(4));
    // the poll record is gone
    assert!(state.polls.get(&poll.id).is_none());
    assert!(matches!(
        &out.requests[0],
        RequestKind::EditMessage { text: MsgText::MealWith { note: Note::Saved, .. }, .. }
    ));
}

#[test]
fn canceled_poll_discards_tallies() {
    let mut state = test_state();
    let (meal, poll) = start_rating_poll(&mut state, Some(2));
    // the cancel button marks the poll canceled and stops the external poll
    let out = ButtonKind::CancelPollRating { poll_id: poll.id.clone() }
        .execute(&mut state, &ctx(5));
    assert!(matches!(&out.requests[0], RequestKind::StopPoll { .. }));
    // rating untouched by the cancellation itself
    assert_eq!(state.meals.get(&meal.id).unwrap().rating, Some(2));
    // the closing update arrives with plenty of votes: they are discarded
    let canceled = state.polls.get(&poll.id).unwrap();
    assert!(canceled.is_canceled);
    let update = PollUpdate { is_closed: true, option_votes: vec![0, 0, 0, 0, 99] };
    let out = canceled.handle_votes(&mut state, &update);
    assert_eq!(state.meals.get(&meal.id).unwrap().rating, Some(2));
    assert!(matches!(
        &out.requests[0],
        RequestKind::EditMessage {
            text: MsgText::MealWith { note: Note::PollCanceled, .. },
            ..
        }
    ));
    assert!(matches!(&out.requests[1], RequestKind::DeleteMessage { .. }));
}

#[test]
fn zero_vote_close_restores_the_meal_card() {
    let mut state = test_state();
    let (meal, poll) = start_rating_poll(&mut state, None);
    let update = PollUpdate { is_closed: true, option_votes: vec![0, 0, 0, 0, 0] };
    poll.handle_votes(&mut state, &update);
    assert_eq!(state.meals.get(&meal.id).unwrap().rating, None);
    assert!(state.polls.get(&poll.id).is_none());
}

#[test]
fn open_poll_swaps_keyboard_with_the_tally() {
    let mut state = test_state();
    let (meal, poll) = start_rating_poll(&mut state, None);
    // a vote arrives while the poll is open: the keyboard becomes confirm/cancel
    let update = PollUpdate { is_closed: false, option_votes: vec![1, 0, 0, 0, 0] };
    let out = poll.handle_votes(&mut state, &update);
    match &out.requests[0] {
        RequestKind::EditReplyMarkup { keyboard: Some(kb), .. } => {
            assert_eq!(kb.buttons[0].len(), 2);
            assert!(matches!(
                kb.buttons[0][0].kind,
                ButtonKind::SavePollRating { .. }
            ));
            assert!(matches!(
                kb.buttons[0][1].kind,
                ButtonKind::CancelPollRating { .. }
            ));
            assert_eq!(kb.buttons[0][0].text, "SAVE");
            assert_eq!(kb.buttons[0][1].text, "CANCEL");
        },
        _ => panic!("expected a keyboard swap"),
    }
    // the record now points at the new keyboard
    let repointed = state.polls.get(&poll.id).unwrap();
    assert_ne!(repointed.keyboard_id, poll.keyboard_id);
    // everything retracted: the keyboard falls back to a single cancel button
    let update = PollUpdate { is_closed: false, option_votes: vec![0, 0, 0, 0, 0] };
    let out = repointed.handle_votes(&mut state, &update);
    match &out.requests[0] {
        RequestKind::EditReplyMarkup { keyboard: Some(kb), .. } => {
            assert_eq!(kb.buttons[0].len(), 1);
            assert!(matches!(
                kb.buttons[0][0].kind,
                ButtonKind::CancelPollRating { .. }
            ));
        },
        _ => panic!("expected a keyboard swap"),
    }
    let _ = meal;
}

#[test]
fn poll_for_deleted_meal_is_stopped_and_dropped() {
    let mut state = test_state();
    let (meal, poll) = start_rating_poll(&mut state, None);
    state.meals.remove(&meal.id);
    let update = PollUpdate { is_closed: false, option_votes: vec![0, 0, 0, 0, 0] };
    let out = poll.handle_votes(&mut state, &update);
    assert!(matches!(&out.requests[0], RequestKind::StopPoll { .. }));
    assert!(state.polls.get(&poll.id).is_none());
}

#[test]
fn plan_poll_updates_are_a_stub() {
    let mut state = test_state();
    let poll = Poll::new(
        "ext1".to_string(),
        5,
        10,
        PollKind::Plan { plan_id: "p1".to_string() },
        "kb1".to_string(),
    );
    state.polls.add(poll.duplicate());
    let update = PollUpdate { is_closed: true, option_votes: vec![3, 2] };
    let out = poll.handle_votes(&mut state, &update);
    assert_eq!(out.requests.len(), 0);
    assert_eq!(state.polls.len(), 1);
}

#[test]
fn save_poll_rating_stops_the_external_poll() {
    let mut state = test_state();
    let (_meal, poll) = start_rating_poll(&mut state, None);
    let out = ButtonKind::SavePollRating {
        meal_id: "whatever".to_string(),
        poll_id: poll.id.clone(),
    }
        .execute(&mut state, &ctx(5));
    assert!(matches!(&out.requests[0], RequestKind::StopPoll { poll: None, .. }));
}
