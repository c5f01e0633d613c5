use vstd::prelude::*;
use crate::command::{Command, CommandView};
use crate::ident::{fresh_id, id_wf, payload_of, CorrelationId};
use crate::rating_in_range;
use crate::text::{to_upper, upper_of};

verus! {

/// The model of a [`ButtonKind`].
pub enum ButtonKindView {
    DisplayPlanMeal { meal_id: Seq<char>, plan_id: Seq<char> },
    DisplayListMeal { meal_id: Seq<char> },
    ShowList,
    ShowPlan,
    RerollPlan,
    ClearVotes,
    RemovePlanPoll { plan_id: Seq<char> },
    SaveMeal { meal_id: Seq<char> },
    RateMeal { meal_id: Seq<char>, rating: u8 },
    RemoveMeal { meal_id: Seq<char> },
    DeleteMeal { meal_id: Seq<char> },
    PollRating { meal_id: Seq<char> },
    SavePollRating { meal_id: Seq<char>, poll_id: Seq<char> },
    CancelPollRating { poll_id: Seq<char> },
    CommandButton { command: CommandView },
    PinMessage,
    DeleteMessage,
}

impl ButtonKindView {
    /// A button payload is replayable: a rating it carries is a star level.
    pub open spec fn wf(&self) -> bool {
        *self matches ButtonKindView::RateMeal { rating, .. } ==> rating_in_range(rating)
    }
}

/// The logical action a button replays when clicked. It carries only the data
/// needed to replay the action, never a live reference to shared state.
pub enum ButtonKind {
    DisplayPlanMeal { meal_id: String, plan_id: String },
    DisplayListMeal { meal_id: String },
    ShowList,
    ShowPlan,
    RerollPlan,
    ClearVotes,
    RemovePlanPoll { plan_id: String },
    SaveMeal { meal_id: String },
    RateMeal { meal_id: String, rating: u8 },
    RemoveMeal { meal_id: String },
    DeleteMeal { meal_id: String },
    PollRating { meal_id: String },
    SavePollRating { meal_id: String, poll_id: String },
    CancelPollRating { poll_id: String },
    CommandButton { command: Command },
    PinMessage,
    DeleteMessage,
}

impl View for ButtonKind {
    type V = ButtonKindView;

    open spec fn view(&self) -> ButtonKindView {
        match self {
            ButtonKind::DisplayPlanMeal { meal_id, plan_id } => ButtonKindView::DisplayPlanMeal {
                meal_id: meal_id@,
                plan_id: plan_id@,
            },
            ButtonKind::DisplayListMeal { meal_id } => ButtonKindView::DisplayListMeal {
                meal_id: meal_id@,
            },
            ButtonKind::ShowList => ButtonKindView::ShowList,
            ButtonKind::ShowPlan => ButtonKindView::ShowPlan,
            ButtonKind::RerollPlan => ButtonKindView::RerollPlan,
            ButtonKind::ClearVotes => ButtonKindView::ClearVotes,
            ButtonKind::RemovePlanPoll { plan_id } => ButtonKindView::RemovePlanPoll {
                plan_id: plan_id@,
            },
            ButtonKind::SaveMeal { meal_id } => ButtonKindView::SaveMeal { meal_id: meal_id@ },
            ButtonKind::RateMeal { meal_id, rating } => ButtonKindView::RateMeal {
                meal_id: meal_id@,
                rating: *rating,
            },
            ButtonKind::RemoveMeal { meal_id } => ButtonKindView::RemoveMeal { meal_id: meal_id@ },
            ButtonKind::DeleteMeal { meal_id } => ButtonKindView::DeleteMeal { meal_id: meal_id@ },
            ButtonKind::PollRating { meal_id } => ButtonKindView::PollRating { meal_id: meal_id@ },
            ButtonKind::SavePollRating { meal_id, poll_id } => ButtonKindView::SavePollRating {
                meal_id: meal_id@,
                poll_id: poll_id@,
            },
            ButtonKind::CancelPollRating { poll_id } => ButtonKindView::CancelPollRating {
                poll_id: poll_id@,
            },
            ButtonKind::CommandButton { command } => ButtonKindView::CommandButton {
                command: command@,
            },
            ButtonKind::PinMessage => ButtonKindView::PinMessage,
            ButtonKind::DeleteMessage => ButtonKindView::DeleteMessage,
        }
    }
}

impl DeepView for ButtonKind {
    type V = ButtonKindView;

    open spec fn deep_view(&self) -> ButtonKindView {
        self@
    }
}

impl ButtonKind {
    /// An exact copy of the action payload.
    pub fn duplicate(&self) -> (r: Self)
        ensures
            r@ == self@,
    {
        match self {
            ButtonKind::DisplayPlanMeal { meal_id, plan_id } => ButtonKind::DisplayPlanMeal {
                meal_id: meal_id.clone(),
                plan_id: plan_id.clone(),
            },
            ButtonKind::DisplayListMeal { meal_id } => ButtonKind::DisplayListMeal {
                meal_id: meal_id.clone(),
            },
            ButtonKind::ShowList => ButtonKind::ShowList,
            ButtonKind::ShowPlan => ButtonKind::ShowPlan,
            ButtonKind::RerollPlan => ButtonKind::RerollPlan,
            ButtonKind::ClearVotes => ButtonKind::ClearVotes,
            ButtonKind::RemovePlanPoll { plan_id } => ButtonKind::RemovePlanPoll {
                plan_id: plan_id.clone(),
            },
            ButtonKind::SaveMeal { meal_id } => ButtonKind::SaveMeal { meal_id: meal_id.clone() },
            ButtonKind::RateMeal { meal_id, rating } => ButtonKind::RateMeal {
                meal_id: meal_id.clone(),
                rating: *rating,
            },
            ButtonKind::RemoveMeal { meal_id } => ButtonKind::RemoveMeal {
                meal_id: meal_id.clone(),
            },
            ButtonKind::DeleteMeal { meal_id } => ButtonKind::DeleteMeal {
                meal_id: meal_id.clone(),
            },
            ButtonKind::PollRating { meal_id } => ButtonKind::PollRating {
                meal_id: meal_id.clone(),
            },
            ButtonKind::SavePollRating { meal_id, poll_id } => ButtonKind::SavePollRating {
                meal_id: meal_id.clone(),
                poll_id: poll_id.clone(),
            },
            ButtonKind::CancelPollRating { poll_id } => ButtonKind::CancelPollRating {
                poll_id: poll_id.clone(),
            },
            ButtonKind::CommandButton { command } => ButtonKind::CommandButton {
                command: command.duplicate(),
            },
            ButtonKind::PinMessage => ButtonKind::PinMessage,
            ButtonKind::DeleteMessage => ButtonKind::DeleteMessage,
        }
    }
}

/// The model of a [`Button`].
pub struct ButtonView {
    pub text: Seq<char>,
    pub id: Seq<char>,
    pub keyboard_id: Option<Seq<char>>,
    pub kind: ButtonKindView,
}

impl ButtonView {
    pub open spec fn wf(&self) -> bool {
        &&& id_wf(self.id)
        &&& (self.keyboard_id matches Some(k) ==> id_wf(k))
        &&& self.kind.wf()
    }
}

/// One rendered inline button: its label and the logical action it replays.
/// `keyboard_id` is stamped when the button's keyboard is built.
pub struct Button {
    pub text: String,
    pub id: String,
    pub keyboard_id: Option<String>,
    pub kind: ButtonKind,
}

impl View for Button {
    type V = ButtonView;

    open spec fn view(&self) -> ButtonView {
        ButtonView {
            text: self.text@,
            id: self.id@,
            keyboard_id: match self.keyboard_id {
                Some(k) => Some(k@),
                None => None,
            },
            kind: self.kind@,
        }
    }
}

impl DeepView for Button {
    type V = ButtonView;

    open spec fn deep_view(&self) -> ButtonView {
        self@
    }
}

/// A button as it goes out to the transport: an uppercased label and the
/// callback payload that routes the click back.
pub struct CallbackButton {
    pub text: String,
    pub data: String,
}

/// The models of a row of buttons.
pub open spec fn row_views(s: Seq<Button>) -> Seq<ButtonView> {
    s.map_values(|b: Button| b@)
}

/// The models of a grid of buttons.
pub open spec fn rows_views(s: Seq<Vec<Button>>) -> Seq<Seq<ButtonView>> {
    s.map_values(|r: Vec<Button>| row_views(r@))
}

/// The shape of a grid chunked four to a row over `n` items: exactly enough
/// rows, every row full but possibly the last.
pub open spec fn grid_shape(rows: Seq<Seq<ButtonView>>, n: int) -> bool {
    &&& rows.len() == (n + 3) / 4
    &&& forall|i: int|
        0 <= i < rows.len() ==> #[trigger] rows[i].len() == (if 4 * i + 4 <= n {
            4int
        } else {
            n - 4 * i
        })
}

pub proof fn lemma_row_views_push(s: Seq<Button>, b: Button)
    ensures
        row_views(s.push(b)) == row_views(s).push(b@),
{
    assert(row_views(s.push(b)) =~= row_views(s).push(b@));
}

pub proof fn lemma_rows_views_push(s: Seq<Vec<Button>>, r: Vec<Button>)
    ensures
        rows_views(s.push(r)) == rows_views(s).push(row_views(r@)),
{
    assert(rows_views(s.push(r)) =~= rows_views(s).push(row_views(r@)));
}

impl Button {
    pub fn new(text: String, kind: ButtonKind) -> (r: Self)
        ensures
            r@.text == text@,
            r@.keyboard_id is None,
            r@.kind == kind@,
            id_wf(r@.id),
    {
        Button { id: fresh_id(), text, keyboard_id: None, kind }
    }

    /// An exact copy of the button.
    pub fn duplicate(&self) -> (r: Self)
        ensures
            r@ == self@,
    {
        Button {
            text: self.text.clone(),
            id: self.id.clone(),
            keyboard_id: match &self.keyboard_id {
                Some(k) => Some(k.clone()),
                None => None,
            },
            kind: self.kind.duplicate(),
        }
    }

    /// The same button stamped as owned by the keyboard `id`.
    pub fn with_keyboard(&self, id: &String) -> (r: Self)
        ensures
            r@ == (ButtonView { keyboard_id: Some(id@), ..self@ }),
    {
        Button {
            text: self.text.clone(),
            id: self.id.clone(),
            keyboard_id: Some(id.clone()),
            kind: self.kind.duplicate(),
        }
    }

    /// The renderable form: uppercased label plus the `keyboard.button`
    /// correlation payload.
    pub fn callback_button(&self) -> (r: CallbackButton)
        ensures
            r.text@ == upper_of(self@.text),
            r.data@ == payload_of(self@.keyboard_id, self@.id),
    {
        let correlation = CorrelationId {
            keyboard_id: match &self.keyboard_id {
                Some(k) => Some(k.clone()),
                None => None,
            },
            button_id: self.id.clone(),
        };
        CallbackButton { text: to_upper(self.text.as_str()), data: correlation.encode() }
    }
}

/// The five star buttons for rating a meal in place: stars up to the current
/// rating are filled.
pub fn rate_meal_button_row(rating: u8, meal_id: &String) -> (r: Vec<Button>)
    ensures
        row_views(r@).len() == 5,
        forall|i: int| 0 <= i < 5 ==> id_wf((#[trigger] row_views(r@)[i]).id),
        forall|i: int|
            0 <= i < 5 ==> (#[trigger] row_views(r@)[i] matches ButtonView {
                keyboard_id: None,
                kind: ButtonKindView::RateMeal { meal_id: m, rating: rr },
                text,
                ..
            } && m == meal_id@ && rr == i + 1 && text == (if i + 1 <= rating {
                "\u{2b50}"@
            } else {
                "\u{26ab}"@
            })),
{
    let mut out: Vec<Button> = Vec::new();
    let mut level: u8 = 1;
    while level <= 5
        invariant
            1 <= level <= 6,
            row_views(out@).len() == level - 1,
            forall|i: int| 0 <= i < level - 1 ==> id_wf((#[trigger] row_views(out@)[i]).id),
            forall|i: int|
                0 <= i < level - 1 ==> (#[trigger] row_views(out@)[i] matches ButtonView {
                    keyboard_id: None,
                    kind: ButtonKindView::RateMeal { meal_id: m, rating: rr },
                    text,
                    ..
                } && m == meal_id@ && rr == i + 1 && text == (if i + 1 <= rating {
                    "\u{2b50}"@
                } else {
                    "\u{26ab}"@
                })),
        decreases 6 - level,
    {
        let label: &str = if level <= rating {
            "\u{2b50}"
        } else {
            "\u{26ab}"
        };
        let button = Button::new(
            label.to_owned(),
            ButtonKind::RateMeal { meal_id: meal_id.clone(), rating: level },
        );
        let ghost prevv = out@;
        let ghost prevdv = row_views(out@);
        let ghost bv = button@;
        out.push(button);
        proof {
            assert forall|i: int| 0 <= i < prevv.len() implies #[trigger] row_views(out@)[i]
                == prevdv[i] by {
                assert(out@[i] == prevv[i]);
            }
            assert(row_views(out@)[prevv.len() as int] == bv);
        }
        level = level + 1;
    }
    out
}

/// The confirm row under a saved meal: dismiss it, or remove the meal.
pub fn save_meal_button_row(meal_id: &String) -> (r: Vec<Button>)
    ensures
        row_views(r@).len() == 2,
        forall|i: int| 0 <= i < 2 ==> id_wf((#[trigger] row_views(r@)[i]).id),
        row_views(r@)[0].kind == ButtonKindView::DeleteMessage,
        row_views(r@)[0].text == "OK"@,
        (row_views(r@)[1].kind matches ButtonKindView::RemoveMeal { meal_id: m } && m == meal_id@),
        row_views(r@)[1].text == "REMOVE"@,
        forall|i: int| 0 <= i < 2 ==> #[trigger] row_views(r@)[i].keyboard_id is None,
{
    let ok_button = Button::new(String::from_str("OK"), ButtonKind::DeleteMessage);
    let remove_button = Button::new(
        String::from_str("REMOVE"),
        ButtonKind::RemoveMeal { meal_id: meal_id.clone() },
    );
    let mut out: Vec<Button> = Vec::new();
    out.push(ok_button);
    out.push(remove_button);
    out
}

/// The confirm row under a rating poll with votes: save the tally now, or
/// cancel the poll.
pub fn save_poll_button_row(meal_id: &String, poll_id: &String) -> (r: Vec<Button>)
    ensures
        row_views(r@).len() == 2,
        forall|i: int| 0 <= i < 2 ==> id_wf((#[trigger] row_views(r@)[i]).id),
        (row_views(r@)[0].kind matches ButtonKindView::SavePollRating { meal_id: m, poll_id: p }
            && m == meal_id@ && p == poll_id@),
        row_views(r@)[0].text == "SAVE"@,
        (row_views(r@)[1].kind matches ButtonKindView::CancelPollRating { poll_id: p } && p
            == poll_id@),
        row_views(r@)[1].text == "CANCEL"@,
        forall|i: int| 0 <= i < 2 ==> #[trigger] row_views(r@)[i].keyboard_id is None,
{
    let save_button = Button::new(
        String::from_str("SAVE"),
        ButtonKind::SavePollRating { meal_id: meal_id.clone(), poll_id: poll_id.clone() },
    );
    let cancel_button = Button::new(
        String::from_str("CANCEL"),
        ButtonKind::CancelPollRating { poll_id: poll_id.clone() },
    );
    let mut out: Vec<Button> = Vec::new();
    out.push(save_button);
    out.push(cancel_button);
    out
}

} // verus!
