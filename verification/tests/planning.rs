use mealbot::button::ButtonKind;
use mealbot::command::{Command, MessageContext};
use mealbot::dispatch::{CallbackContext, MessageRef};
use mealbot::ident::{fresh_id, random_bytes};
use mealbot::meal::Meal;
use mealbot::plan::Plan;
use mealbot::request::{BatchExec, MsgText, Note, RequestKind, RequestResult};
use mealbot::state::{Config, State};
use mealbot::store::HasId;
use mealbot::text::{star_answers, stars, to_upper};

fn test_state() -> State {
    State::new(Config {
        password: "SECRET-REDACTED".to_string(),
        name: "bot".to_string(),
        backup: false,
    })
}

fn meals(names_and_ratings: &[(&str, Option<u8>)]) -> Vec<Meal> {
    names_and_ratings
        .iter()
        .map(|(name, rating)| {
            let mut m = Meal::new(&name.to_string(), 5, 9);
            m.rate(*rating);
            m
        })
        .collect()
}

#[test]
fn sampling_without_replacement_returns_distinct_meals() {
    let pool = meals(&[("a", Some(5)), ("b", Some(1)), ("c", None), ("d", Some(3))]);
    for _ in 0..25 {
        let plan = Plan::gen(5, pool.iter().map(|m| m.duplicate()).collect(), 3);
        assert_eq!(plan.days, 3);
        assert_eq!(plan.meals.len(), 3);
        let mut ids: Vec<String> = plan.meals.iter().map(|m| m.id.clone()).collect();
        ids.sort();
        ids.dedup();
        assert_eq!(ids.len(), 3);
        for m in &plan.meals {
            assert!(pool.iter().any(|p| p.id == m.id));
        }
    }
}

#[test]
fn sampling_more_days_than_meals_degrades_gracefully() {
    let pool = meals(&[("a", Some(5)), ("b", None)]);
    let plan = Plan::gen(5, pool, 10);
    assert_eq!(plan.days, 2);
    assert_eq!(plan.meals.len(), 2);
    assert_ne!(plan.meals[0].id, plan.meals[1].id);
}

#[test]
fn sampling_from_nothing_gives_an_empty_plan() {
    let plan = Plan::gen(5, Vec::new(), 4);
    assert_eq!(plan.days, 0);
    assert_eq!(plan.meals.len(), 0);
}

fn whitelisted_ctx(state: &mut State) -> MessageContext {
    state.whitelist_user("alice".to_string());
    MessageContext { chat_id: 5, message_id: 1, username: Some("alice".to_string()), user_id: 9 }
}

#[test]
fn plan_requests_out_of_range_are_rejected_before_sampling() {
    let mut state = test_state();
    let ctx = whitelisted_ctx(&mut state);
    for m in meals(&[("a", Some(4)), ("b", Some(2)), ("c", None)]) {
        m.save(&mut state);
    }
    for (days, note) in [(0usize, Note::PlanTooShort), (1, Note::PlanTooShort), (11, Note::PlanTooLong), (100, Note::PlanTooLong)] {
        let out = Command::Plan(Some(days)).execute(&mut state, &ctx);
        // no plan object was persisted, and the user sees the rejection
        assert_eq!(state.plans.len(), 0);
        assert!(matches!(
            &out.requests[0],
            RequestKind::Message { text: MsgText::Plain { note: n, .. }, .. } if *n == note
        ));
    }
}

#[test]
fn plan_request_in_range_persists_one_plan_and_sends_a_poll() {
    let mut state = test_state();
    let ctx = whitelisted_ctx(&mut state);
    for m in meals(&[("a", Some(4)), ("b", Some(2)), ("c", None), ("d", Some(5))]) {
        m.save(&mut state);
    }
    let out = Command::Plan(Some(3)).execute(&mut state, &ctx);
    assert_eq!(state.plans.len(), 1);
    let plan = state.plans.all().pop().unwrap();
    assert_eq!(plan.days, 3);
    match &out.requests[0] {
        RequestKind::Poll { answers, keyboard, .. } => {
            assert_eq!(answers.len(), 3);
            let kb = keyboard.as_ref().unwrap();
            // the control row sits under the meal info buttons
            let last = kb.buttons.last().unwrap();
            assert!(matches!(last[0].kind, ButtonKind::RerollPlan));
            assert!(matches!(last[1].kind, ButtonKind::ClearVotes));
            assert!(matches!(last[2].kind, ButtonKind::RemovePlanPoll { .. }));
            assert_eq!(last[0].text, "Reroll");
            assert_eq!(last[1].text, "Clear");
            assert_eq!(last[2].text, "Exit");
            // one info button per plan meal sits above the control row
            let info: usize = kb.buttons[..kb.buttons.len() - 1]
                .iter()
                .map(|r| r.len())
                .sum();
            assert_eq!(info, 3);
        },
        _ => panic!("expected a poll"),
    }
    // rerolling replaces the plan with a fresh one of the same length
    let cctx = CallbackContext {
        callback_id: "cb".to_string(),
        chat_id: 5,
        message: Some(MessageRef { message_id: 8, has_photo: false }),
        inline_message_id: None,
        username: Some("alice".to_string()),
        user_id: 9,
    };
    ButtonKind::RerollPlan.execute(&mut state, &cctx);
    assert_eq!(state.plans.len(), 1);
    let rerolled = state.plans.all().pop().unwrap();
    assert_eq!(rerolled.days, 3);
    assert_ne!(rerolled.id, plan.id);
}

#[test]
fn plan_answers_show_name_and_stars() {
    let mut m = Meal::new(&"pizza".to_string(), 5, 9);
    m.rate(Some(4));
    let unrated = Meal::new(&"bread".to_string(), 5, 9);
    let plan = Plan::new(5, vec![m, unrated]);
    let answers = plan.answers();
    assert_eq!(answers.len(), 2);
    assert_eq!(answers[0], "PIZZA (4\u{2b50})");
    assert_eq!(answers[1], "BREAD (1\u{2b50})");
}

#[test]
fn batch_executor_never_stops_on_a_failure() {
    let mut batch = RequestResult::new();
    batch.add(RequestKind::DeleteMessage { chat_id: 5, message_id: 1 });
    batch.add(RequestKind::DeleteMessage { chat_id: 5, message_id: 2 });
    batch.add(RequestKind::DeleteMessage { chat_id: 5, message_id: 3 });
    let mut exec = BatchExec::start(batch);
    let outcomes = [true, false, true];
    let mut issued: Vec<i32> = Vec::new();
    let mut step = 0;
    while let Some(req) = exec.next_request() {
        match req {
            RequestKind::DeleteMessage { message_id, .. } => issued.push(*message_id),
            _ => panic!("unexpected request"),
        }
        let delivered = outcomes[step];
        step += 1;
        exec.record(delivered);
    }
    // the failing middle item did not stop the rest of the batch
    assert_eq!(issued, vec![1, 2, 3]);
    assert_eq!(exec.failures(), 1);
}

#[test]
fn payload_encoding_round_trips() {
    let c = mealbot::ident::CorrelationId {
        keyboard_id: Some("kb42".to_string()),
        button_id: "btn7".to_string(),
    };
    let payload = c.encode();
    assert_eq!(payload, "kb42.btn7");
    let parsed = mealbot::ident::parse_payload(payload.as_str()).unwrap();
    assert_eq!(parsed.keyboard_id, Some("kb42".to_string()));
    assert_eq!(parsed.button_id, "btn7".to_string());

    let bare = mealbot::ident::CorrelationId { keyboard_id: None, button_id: "solo".to_string() };
    assert_eq!(bare.encode(), ".solo");
    let parsed = mealbot::ident::parse_payload(".solo").unwrap();
    assert_eq!(parsed.keyboard_id, None);
    assert_eq!(parsed.button_id, "solo".to_string());

    assert!(mealbot::ident::parse_payload("two.dots.here").is_none());
    assert!(mealbot::ident::parse_payload("nodots").is_none());
}

#[test]
fn fresh_ids_are_short_and_free_of_the_separator() {
    for _ in 0..50 {
        let id = fresh_id();
        assert_eq!(id.chars().count(), 21);
        assert!(!id.contains('.'));
    }
    let bytes = random_bytes(8);
    assert_eq!(bytes.len(), 8);
}

#[test]
fn star_strings_render_by_count() {
    assert_eq!(stars(0), "");
    assert_eq!(stars(3), "\u{2b50}\u{2b50}\u{2b50}");
    let answers = star_answers();
    assert_eq!(answers.len(), 5);
    assert_eq!(answers[0], "\u{2b50}");
    assert_eq!(answers[4], "\u{2b50}\u{2b50}\u{2b50}\u{2b50}\u{2b50}");
}

#[test]
fn uppercasing_really_folds_case() {
    assert_eq!(to_upper("pizza Margherita"), "PIZZA MARGHERITA");
    assert_eq!(to_upper(""), "");
}
