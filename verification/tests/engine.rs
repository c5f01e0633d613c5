use mealbot::button::{Button, ButtonKind};
use mealbot::callback::handle_callback;
use mealbot::command::{Command, MessageContext};
use mealbot::dispatch::{CallbackContext, MessageRef};
use mealbot::keyboard::Keyboard;
use mealbot::meal::Meal;
use mealbot::request::{MsgText, Note, RequestKind};
use mealbot::state::{Config, State};

fn test_config() -> Config {
    Config { password: "SECRET-REDACTED".to_string(), name: "bot".to_string(), backup: false }
}

fn test_state() -> State {
    State::new(test_config())
}

fn callback_ctx(chat_id: i64) -> CallbackContext {
    CallbackContext {
        callback_id: "cb1".to_string(),
        chat_id,
        message: Some(MessageRef { message_id: 77, has_photo: false }),
        inline_message_id: None,
        username: Some("alice".to_string()),
        user_id: 9,
    }
}

fn add_meal(state: &mut State, name: &str, chat_id: i64) -> Meal {
    let meal = Meal::new(&name.to_string(), chat_id, 9);
    meal.save(state);
    meal
}

#[test]
fn single_use_resolution_first_click_runs_then_consumes() {
    let mut state = test_state();
    let meal = add_meal(&mut state, "soup", 5);
    let keyboard = Keyboard::new(5)
        .buttons(vec![vec![Button::new(
            "Show".to_string(),
            ButtonKind::SaveMeal { meal_id: meal.id.clone() },
        )]])
        .save(&mut state);
    let payload = keyboard.buttons[0][0].callback_button().data;
    let ctx = callback_ctx(5);

    let first = handle_callback(&mut state, &ctx, payload.as_str());
    // the click resolved: it edited the message rather than raising the
    // outdated alert
    assert_eq!(first.requests.len(), 1);
    assert!(matches!(
        &first.requests[0],
        RequestKind::EditMessage { text: MsgText::MealWith { note: Note::Saved, .. }, .. }
    ));

    // the keyboard was consumed: the same payload now resolves to nothing
    let second = handle_callback(&mut state, &ctx, payload.as_str());
    assert_eq!(second.requests.len(), 2);
    assert!(matches!(
        &second.requests[0],
        RequestKind::CallbackAnswer { note: Note::Outdated, show_alert: true, .. }
    ));
    assert!(matches!(&second.requests[1], RequestKind::EditReplyMarkup { keyboard: None, .. }));
}

#[test]
fn stale_payload_yields_outdated_notice() {
    let mut state = test_state();
    let ctx = callback_ctx(5);
    let out = handle_callback(&mut state, &ctx, "unknownkb.unknownbtn");
    assert_eq!(out.requests.len(), 2);
    assert!(matches!(
        &out.requests[0],
        RequestKind::CallbackAnswer { note: Note::Outdated, show_alert: true, .. }
    ));
}

#[test]
fn malformed_payload_yields_outdated_notice() {
    let mut state = test_state();
    let ctx = callback_ctx(5);
    for payload in ["", "nodothere", "a.b.c", ".onlybutton", "keyboardonly."] {
        let out = handle_callback(&mut state, &ctx, payload);
        assert!(matches!(
            &out.requests[0],
            RequestKind::CallbackAnswer { note: Note::Outdated, .. }
        ));
    }
}

#[test]
fn idempotent_deletion_of_absent_meal() {
    let mut state = test_state();
    let ctx = callback_ctx(5);
    let button = ButtonKind::DeleteMeal { meal_id: "nosuchid".to_string() };
    for _ in 0..3 {
        let out = button.execute(&mut state, &ctx);
        assert_eq!(out.requests.len(), 1);
        assert!(matches!(
            &out.requests[0],
            RequestKind::EditMessage {
                text: MsgText::Plain { note: Note::NoMealToDelete },
                ..
            }
        ));
        assert_eq!(state.meals.len(), 0);
        assert_eq!(state.keyboards.len(), 0);
        assert_eq!(state.polls.len(), 0);
    }
}

#[test]
fn delete_meal_removes_and_confirms() {
    let mut state = test_state();
    let meal = add_meal(&mut state, "stew", 5);
    let ctx = callback_ctx(5);
    let out = ButtonKind::DeleteMeal { meal_id: meal.id.clone() }.execute(&mut state, &ctx);
    assert_eq!(state.meals.len(), 0);
    assert!(matches!(
        &out.requests[0],
        RequestKind::EditMessage { text: MsgText::MealWith { note: Note::Removed, .. }, .. }
    ));
}

#[test]
fn rate_meal_updates_rating_and_rerenders_stars() {
    let mut state = test_state();
    let meal = add_meal(&mut state, "pie", 5);
    let ctx = callback_ctx(5);
    let out = ButtonKind::RateMeal { meal_id: meal.id.clone(), rating: 4 }
        .execute(&mut state, &ctx);
    let stored = state.meals.get(&meal.id).unwrap();
    assert_eq!(stored.rating, Some(4));
    assert_eq!(state.keyboards.len(), 1);
    match &out.requests[0] {
        RequestKind::EditMessage { text: MsgText::MealWith { meal, note }, keyboard, .. } => {
            assert_eq!(meal.rating, Some(4));
            assert_eq!(*note, Note::ChangeRatingOrSave);
            let kb = keyboard.as_ref().unwrap();
            assert_eq!(kb.buttons.len(), 2);
            assert_eq!(kb.buttons[0].len(), 5);
            assert_eq!(kb.buttons[0][0].text, "\u{2b50}");
            assert_eq!(kb.buttons[0][4].text, "\u{26ab}");
            assert_eq!(kb.buttons[1][0].text, "OK");
            assert_eq!(kb.buttons[1][1].text, "REMOVE");
        },
        other => panic!("unexpected item: {:?}", kind_name(other)),
    }
}

fn kind_name(k: &RequestKind) -> &'static str {
    match k {
        RequestKind::Message { .. } => "Message",
        RequestKind::Photo { .. } => "Photo",
        RequestKind::EditMessage { .. } => "EditMessage",
        RequestKind::EditCaption { .. } => "EditCaption",
        RequestKind::EditInlineMessage { .. } => "EditInlineMessage",
        RequestKind::EditReplyMarkup { .. } => "EditReplyMarkup",
        RequestKind::Poll { .. } => "Poll",
        RequestKind::StopPoll { .. } => "StopPoll",
        RequestKind::DeleteMessage { .. } => "DeleteMessage",
        RequestKind::CallbackAnswer { .. } => "CallbackAnswer",
        RequestKind::Pin { .. } => "Pin",
    }
}

#[test]
fn command_requires_whitelisting() {
    let mut state = test_state();
    let ctx = MessageContext {
        chat_id: 5,
        message_id: 1,
        username: Some("mallory".to_string()),
        user_id: 3,
    };
    let out = Command::List.execute(&mut state, &ctx);
    assert_eq!(out.requests.len(), 1);
    assert!(matches!(
        &out.requests[0],
        RequestKind::Message { text: MsgText::Plain { note: Note::UserNotWhitelisted }, .. }
    ));
}

#[test]
fn op_with_password_whitelists_user() {
    let mut state = test_state();
    let ctx = MessageContext {
        chat_id: 5,
        message_id: 1,
        username: Some("alice".to_string()),
        user_id: 3,
    };
    let out = Command::Op("alice".to_string(), "SECRET-REDACTED".to_string())
        .execute(&mut state, &ctx);
    assert_eq!(state.get_whitelisted_users(), vec!["alice".to_string()]);
    assert!(matches!(
        &out.requests[0],
        RequestKind::Message { text: MsgText::Plain { note: Note::UserWhitelisted }, .. }
    ));

    let out = Command::Op("bob".to_string(), "wrong".to_string()).execute(&mut state, &ctx);
    assert_eq!(state.get_whitelisted_users().len(), 1);
    assert!(matches!(
        &out.requests[0],
        RequestKind::Message { text: MsgText::Plain { note: Note::WrongPassword }, .. }
    ));
}

fn whitelisted_ctx(state: &mut State) -> MessageContext {
    state.whitelist_user("alice".to_string());
    MessageContext {
        chat_id: 5,
        message_id: 1,
        username: Some("alice".to_string()),
        user_id: 3,
    }
}

#[test]
fn new_meal_command_saves_and_asks_for_rating() {
    let mut state = test_state();
    let ctx = whitelisted_ctx(&mut state);
    let out = Command::NewMeal("lasagna".to_string()).execute(&mut state, &ctx);
    assert_eq!(state.meals.len(), 1);
    let meals = state.meals.all();
    assert_eq!(meals[0].name, "lasagna");
    assert_eq!(meals[0].rating, None);
    assert!(matches!(
        &out.requests[0],
        RequestKind::Message { text: MsgText::MealWith { note: Note::HowDidItTaste, .. }, .. }
    ));
    assert!(matches!(out.requests.last().unwrap(), RequestKind::DeleteMessage { .. }));
}

#[test]
fn rename_command_renames_every_match_case_folded() {
    let mut state = test_state();
    let ctx = whitelisted_ctx(&mut state);
    add_meal(&mut state, "Tacos", 5);
    add_meal(&mut state, "tAcOs", 5);
    add_meal(&mut state, "other", 5);
    let out = Command::Rename("TACOS".to_string(), "burritos".to_string())
        .execute(&mut state, &ctx);
    let names: Vec<String> = state.meals.all().into_iter().map(|m| m.name).collect();
    assert_eq!(names.iter().filter(|n| *n == "burritos").count(), 2);
    assert_eq!(names.iter().filter(|n| *n == "other").count(), 1);
    // one report per renamed meal, then the command message is dismissed
    assert_eq!(out.requests.len(), 3);
}

#[test]
fn rename_without_match_reports_not_found() {
    let mut state = test_state();
    let ctx = whitelisted_ctx(&mut state);
    let out = Command::Rename("ghost".to_string(), "x".to_string()).execute(&mut state, &ctx);
    assert!(matches!(
        &out.requests[0],
        RequestKind::Message { text: MsgText::Plain { note: Note::NoMealWithName }, .. }
    ));
}

#[test]
fn remove_command_clears_matching_meals() {
    let mut state = test_state();
    let ctx = whitelisted_ctx(&mut state);
    add_meal(&mut state, "soup", 5);
    add_meal(&mut state, "SOUP", 5);
    add_meal(&mut state, "salad", 5);
    Command::Remove("soup".to_string()).execute(&mut state, &ctx);
    let names: Vec<String> = state.meals.all().into_iter().map(|m| m.name).collect();
    assert_eq!(names, vec!["salad".to_string()]);
}

#[test]
fn search_matches_fuzzily_and_empty_query_matches_all() {
    let mut state = test_state();
    add_meal(&mut state, "spaghetti carbonara", 5);
    add_meal(&mut state, "stew", 5);
    let hits = mealbot::search::matching_meals(&state, &"sgh".to_string());
    assert_eq!(hits.len(), 1);
    assert_eq!(hits[0].name, "spaghetti carbonara");
    let all = mealbot::search::matching_meals(&state, &"".to_string());
    assert_eq!(all.len(), 2);
    let none = mealbot::search::matching_meals(&state, &"zzzzqq".to_string());
    assert_eq!(none.len(), 0);
}

#[test]
fn list_keyboard_shows_every_meal_four_to_a_row() {
    let mut state = test_state();
    for i in 0..9 {
        add_meal(&mut state, &format!("meal{}", i), 5);
    }
    let ctx = callback_ctx(5);
    let out = ButtonKind::ShowList.execute(&mut state, &ctx);
    match &out.requests[0] {
        RequestKind::EditMessage { keyboard: Some(kb), .. } => {
            let lens: Vec<usize> = kb.buttons.iter().map(|r| r.len()).collect();
            assert_eq!(lens, vec![4, 4, 1]);
            let shown: usize = lens.iter().sum();
            assert_eq!(shown, 9);
        },
        other => panic!("unexpected item: {:?}", kind_name(other)),
    }
}
