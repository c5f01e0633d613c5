use mealbot::command::{Command, MessageContext, PhotoCommand};
use mealbot::meal::Meal;
use mealbot::request::{MsgText, Note, RequestKind};
use mealbot::state::{Config, State};

fn test_state() -> State {
    State::new(Config {
        password: "SECRET-REDACTED".to_string(),
        name: "bot".to_string(),
        backup: false,
    })
}

fn whitelisted_ctx(state: &mut State) -> MessageContext {
    state.whitelist_user("alice".to_string());
    MessageContext { chat_id: 5, message_id: 1, username: Some("alice".to_string()), user_id: 9 }
}

fn add_meal(state: &mut State, name: &str) -> Meal {
    let meal = Meal::new(&name.to_string(), 5, 9);
    meal.save(state);
    meal
}

#[test]
fn plan_boundaries_two_and_ten_are_accepted() {
    let mut state = test_state();
    let ctx = whitelisted_ctx(&mut state);
    for name in ["a", "b", "c"] {
        add_meal(&mut state, name);
    }
    let out = Command::Plan(Some(2)).execute(&mut state, &ctx);
    assert!(matches!(&out.requests[0], RequestKind::Poll { .. }));
    assert_eq!(state.plans.len(), 1);
    assert_eq!(state.plans.all()[0].days, 2);
    // ten days over three meals degrades to three, but the request is lawful
    let out = Command::Plan(Some(10)).execute(&mut state, &ctx);
    assert!(matches!(&out.requests[0], RequestKind::Poll { .. }));
    assert_eq!(state.plans.len(), 1);
    assert_eq!(state.plans.all()[0].days, 3);
}

#[test]
fn rate_command_clamps_unlawful_ratings() {
    let mut state = test_state();
    let ctx = whitelisted_ctx(&mut state);
    let meal = add_meal(&mut state, "pasta");
    Command::Rate("pasta".to_string(), 9).execute(&mut state, &ctx);
    assert_eq!(state.meals.get(&meal.id).unwrap().rating, Some(5));
    Command::Rate("pasta".to_string(), 0).execute(&mut state, &ctx);
    assert_eq!(state.meals.get(&meal.id).unwrap().rating, Some(1));
    Command::Rate("pasta".to_string(), 3).execute(&mut state, &ctx);
    assert_eq!(state.meals.get(&meal.id).unwrap().rating, Some(3));
}

#[test]
fn tag_commands_add_and_remove_tags() {
    let mut state = test_state();
    let ctx = whitelisted_ctx(&mut state);
    let meal = add_meal(&mut state, "pasta");
    Command::Tag("pasta".to_string(), vec!["quick".to_string(), "veggie".to_string()])
        .execute(&mut state, &ctx);
    assert_eq!(
        state.meals.get(&meal.id).unwrap().tags,
        vec!["quick".to_string(), "veggie".to_string()]
    );
    Command::TagRemove("pasta".to_string(), vec!["quick".to_string()]).execute(&mut state, &ctx);
    assert_eq!(state.meals.get(&meal.id).unwrap().tags, vec!["veggie".to_string()]);
}

#[test]
fn ref_command_sets_the_reference() {
    let mut state = test_state();
    let ctx = whitelisted_ctx(&mut state);
    let meal = add_meal(&mut state, "pasta");
    Command::Ref("pasta".to_string(), "somewhere".to_string()).execute(&mut state, &ctx);
    assert_eq!(state.meals.get(&meal.id).unwrap().url, Some("somewhere".to_string()));
}

#[test]
fn new_command_stores_only_lawful_ratings() {
    let mut state = test_state();
    let ctx = whitelisted_ctx(&mut state);
    Command::New {
        meal_name: "cake".to_string(),
        rating: Some(7),
        tags: Some(vec!["sweet".to_string()]),
        url: None,
    }
        .execute(&mut state, &ctx);
    let cake = state.meals.all().pop().unwrap();
    assert_eq!(cake.rating, None);
    assert_eq!(cake.tags, vec!["sweet".to_string()]);
}

#[test]
fn get_command_sends_one_card_per_match() {
    let mut state = test_state();
    let ctx = whitelisted_ctx(&mut state);
    add_meal(&mut state, "soup");
    add_meal(&mut state, "SOUP");
    let out = Command::Get("soup".to_string()).execute(&mut state, &ctx);
    // two cards plus the dismissal of the command message
    assert_eq!(out.requests.len(), 3);
    assert!(matches!(
        &out.requests[0],
        RequestKind::Message { text: MsgText::MealOnly { .. }, keyboard: Some(_), .. }
    ));
}

#[test]
fn photo_command_attaches_the_photo() {
    let mut state = test_state();
    let ctx = whitelisted_ctx(&mut state);
    let meal = add_meal(&mut state, "pasta");
    let out = PhotoCommand::Photo("pasta".to_string())
        .execute(&"file123".to_string(), &mut state, &ctx);
    assert_eq!(
        state.meals.get(&meal.id).unwrap().photos,
        vec!["file123".to_string()]
    );
    assert!(matches!(
        &out.requests[0],
        RequestKind::Message { text: MsgText::MealWith { note: Note::SavedPhoto, .. }, .. }
    ));
}

#[test]
fn photo_command_new_creates_a_meal_with_the_photo() {
    let mut state = test_state();
    let ctx = whitelisted_ctx(&mut state);
    let out = PhotoCommand::New {
        meal_name: "salad".to_string(),
        rating: Some(4),
        tags: None,
        url: None,
    }
        .execute(&"file9".to_string(), &mut state, &ctx);
    let salad = state.meals.all().pop().unwrap();
    assert_eq!(salad.photos, vec!["file9".to_string()]);
    assert_eq!(salad.rating, Some(4));
    // a meal with a photo goes out as a photo card
    assert!(matches!(&out.requests[0], RequestKind::Photo { .. }));
}
