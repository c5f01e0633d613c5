use vstd::prelude::*;
use crate::button::{
    grid_shape, lemma_rows_views_push, rate_meal_button_row, row_views, rows_views,
    save_meal_button_row, save_poll_button_row, Button, ButtonKind, ButtonKindView, ButtonView,
};
use crate::ident::id_wf;
use crate::meal::Meal;
use crate::keyboard::{lemma_built_keyboard_wf, stamp_row, stamp_rows, Keyboard, KeyboardView};
use crate::plan::{answers_of, Plan, PlanView};
use crate::poll::{Poll, PollBuildStepOne, PollBuildView, PollKind, PollKindView, PollView};
use crate::text::{lemma_deep_is_str_views, star_answers, star_run, str_views, to_upper, upper_of};
use crate::meal::MealView;
use crate::request::{opt_keyboard_view, MsgText, MsgTextView, Note, RequestKind, RequestKindView, RequestResult};
use crate::state::State;
use crate::store::{added, entry_of, has_entry, lemma_entry_of, EntryView, HasId};

verus! {

/// The message a clicked button grid hangs on.
pub struct MessageRef {
    pub message_id: i32,
    pub has_photo: bool,
}

/// Everything a button click brings along: which callback to answer, which
/// chat it came from, and which message the grid hangs on, as plain values.
pub struct CallbackContext {
    pub callback_id: String,
    pub chat_id: i64,
    pub message: Option<MessageRef>,
    pub inline_message_id: Option<String>,
    pub username: Option<String>,
    pub user_id: i32,
}

/// The batch that edits the clicked message in place: its caption when it is
/// a photo message, its text otherwise, or the inline message when the click
/// came from an inline query.
pub open spec fn edit_batch(
    ctx: CallbackContext,
    text: MsgTextView,
    kb: Option<KeyboardView>,
) -> Seq<RequestKindView> {
    match ctx.message {
        Some(m) => if m.has_photo {
            seq![
                RequestKindView::EditCaption {
                    chat_id: ctx.chat_id as int,
                    message_id: m.message_id as int,
                    caption: text,
                    keyboard: kb,
                },
            ]
        } else {
            seq![
                RequestKindView::EditMessage {
                    chat_id: ctx.chat_id as int,
                    message_id: m.message_id as int,
                    text: text,
                    keyboard: kb,
                },
            ]
        },
        None => match ctx.inline_message_id {
            Some(id) => seq![
                RequestKindView::EditInlineMessage {
                    inline_message_id: id@,
                    text: text,
                    keyboard: kb,
                },
            ],
            None => Seq::<RequestKindView>::empty(),
        },
    }
}

/// The batch that deletes the clicked message, when there is one.
pub open spec fn delete_batch(ctx: CallbackContext) -> Seq<RequestKindView> {
    match ctx.message {
        Some(m) => seq![
            RequestKindView::DeleteMessage {
                chat_id: ctx.chat_id as int,
                message_id: m.message_id as int,
            },
        ],
        None => Seq::<RequestKindView>::empty(),
    }
}

/// Nothing but the meal catalogue changed.
pub open spec fn only_meals_touched(st0: State, st1: State) -> bool {
    &&& st1.plans == st0.plans
    &&& st1.polls == st0.polls
    &&& st1.keyboards == st0.keyboards
    &&& st1.whitelist == st0.whitelist
    &&& st1.config == st0.config
}

/// Nothing but the meal catalogue and the keyboard registry changed.
pub open spec fn meals_and_keyboards_touched(st0: State, st1: State) -> bool {
    &&& st1.plans == st0.plans
    &&& st1.polls == st0.polls
    &&& st1.whitelist == st0.whitelist
    &&& st1.config == st0.config
}

/// Nothing but the poll table changed.
pub open spec fn only_polls_touched(st0: State, st1: State) -> bool {
    &&& st1.meals == st0.meals
    &&& st1.plans == st0.plans
    &&& st1.keyboards == st0.keyboards
    &&& st1.whitelist == st0.whitelist
    &&& st1.config == st0.config
}

/// The five star buttons, judged by their actions and labels alone.
pub open spec fn is_rate_row(row: Seq<ButtonView>, rating: u8, meal_id: Seq<char>) -> bool {
    &&& row.len() == 5
    &&& forall|i: int|
        0 <= i < 5 ==> ((#[trigger] row[i]).kind matches ButtonKindView::RateMeal {
            meal_id: m,
            rating: rr,
        } && m == meal_id && rr == i + 1)
}

/// The confirm row under a saved meal: dismiss, or remove the meal.
pub open spec fn is_save_row(row: Seq<ButtonView>, meal_id: Seq<char>) -> bool {
    &&& row.len() == 2
    &&& row[0].kind == ButtonKindView::DeleteMessage
    &&& row[0].text == "OK"@
    &&& (row[1].kind matches ButtonKindView::RemoveMeal { meal_id: m } && m == meal_id)
    &&& row[1].text == "REMOVE"@
}

/// A keyboard freshly registered for this dispatch: it landed in the registry
/// and is scoped to the chat.
pub open spec fn keyboard_registered(st0: State, st1: State, kbv: KeyboardView, chat: int) -> bool {
    &&& added(st0.keyboards@, st1.keyboards@, kbv)
    &&& kbv.chat_id == chat
}

impl ButtonKind {
    /// Edits the clicked message in place, routing to caption, text or inline
    /// edit as the context demands.
    pub fn edit_callback_text(
        ctx: &CallbackContext,
        text: MsgText,
        reply_markup: Option<Keyboard>,
    ) -> (r: RequestResult)
        ensures
            r@ == edit_batch(*ctx, text@, opt_keyboard_view(reply_markup)),
    {
        let mut result = RequestResult::new();
        match &ctx.message {
            Some(m) => {
                if m.has_photo {
                    result.add(
                        RequestKind::EditCaption {
                            chat_id: ctx.chat_id,
                            message_id: m.message_id,
                            caption: text,
                            keyboard: reply_markup,
                        },
                    );
                } else {
                    result.add(
                        RequestKind::EditMessage {
                            chat_id: ctx.chat_id,
                            message_id: m.message_id,
                            text,
                            keyboard: reply_markup,
                        },
                    );
                }
            },
            None => {
                match &ctx.inline_message_id {
                    Some(id) => {
                        result.add(
                            RequestKind::EditInlineMessage {
                                inline_message_id: id.clone(),
                                text,
                                keyboard: reply_markup,
                            },
                        );
                    },
                    None => {},
                }
            },
        }
        proof {
            assert(result@ =~= edit_batch(*ctx, text@, opt_keyboard_view(reply_markup)));
        }
        result
    }
}

/// What `SaveMeal` does: confirm an existing meal to the user, touching no
/// state at all (re-filing a meal under its own id changes nothing).
pub open spec fn save_meal_spec(
    st0: State,
    st1: State,
    ctx: CallbackContext,
    meal_id: Seq<char>,
    batch: Seq<RequestKindView>,
) -> bool {
    &&& st1.meals@ == st0.meals@
    &&& only_meals_touched(st0, st1)
    &&& batch == edit_batch(
        ctx,
        (if has_entry(st0.meals@, meal_id) {
            MsgTextView::MealWith { meal: entry_of(st0.meals@, meal_id), note: Note::Saved }
        } else {
            MsgTextView::Plain { note: Note::MealNotFoundToSave }
        }),
        None,
    )
}

fn save_meal_button(state: &mut State, ctx: &CallbackContext, meal_id: &String) -> (r:
    RequestResult)
    requires
        old(state).wf(),
    ensures
        final(state).wf(),
        save_meal_spec(*old(state), *final(state), *ctx, meal_id@, r@),
{
    let meal_opt = state.meals.get(meal_id);
    match meal_opt {
        Some(meal) => {
            let ghost mv = meal@;
            let dup = meal.duplicate();
            state.meals.add(dup);
            proof {
                let s0 = old(state).meals@;
                assert(s0.contains(mv));
                let k = choose|k: int| 0 <= k < s0.len() && s0[k] == mv;
                assert(s0[k].vid() == mv.vid());
                lemma_entry_of(s0, meal_id@, k);
                assert(entry_of(s0, meal_id@) == mv);
                let i = choose|i: int|
                    0 <= i < s0.len() && s0[i].vid() == mv.vid() && state.meals@ == s0.update(i, mv);
                assert(s0.contains(s0[i]));
                crate::store::lemma_entry_unique(s0, s0[i], mv);
                assert(state.meals@ =~= s0);
            }
            ButtonKind::edit_callback_text(
                ctx,
                MsgText::MealWith { meal, note: Note::Saved },
                None,
            )
        },
        None => ButtonKind::edit_callback_text(
            ctx,
            MsgText::Plain { note: Note::MealNotFoundToSave },
            None,
        ),
    }
}

/// What `DeleteMeal` does: remove the meal and confirm, or report that there
/// was nothing to delete. On an absent id the state comes through untouched,
/// however often the action is replayed.
pub open spec fn delete_meal_spec(
    st0: State,
    st1: State,
    ctx: CallbackContext,
    meal_id: Seq<char>,
    batch: Seq<RequestKindView>,
) -> bool {
    &&& only_meals_touched(st0, st1)
    &&& !has_entry(st1.meals@, meal_id)
    &&& if has_entry(st0.meals@, meal_id) {
        exists|i: int|
            0 <= i < st0.meals@.len() && st0.meals@[i].vid() == meal_id && st1.meals@
                == st0.meals@.remove(i) && batch == edit_batch(
                ctx,
                (MsgTextView::MealWith { meal: st0.meals@[i], note: Note::Removed }),
                None,
            )
    } else {
        &&& st1.meals@ == st0.meals@
        &&& batch == edit_batch(ctx, (MsgTextView::Plain { note: Note::NoMealToDelete }), None)
    }
}

fn delete_meal_button(state: &mut State, ctx: &CallbackContext, meal_id: &String) -> (r:
    RequestResult)
    requires
        old(state).wf(),
    ensures
        final(state).wf(),
        delete_meal_spec(*old(state), *final(state), *ctx, meal_id@, r@),
{
    match state.meals.remove(meal_id) {
        Some(meal) => ButtonKind::edit_callback_text(
            ctx,
            MsgText::MealWith { meal, note: Note::Removed },
            None,
        ),
        None => ButtonKind::edit_callback_text(
            ctx,
            MsgText::Plain { note: Note::NoMealToDelete },
            None,
        ),
    }
}

/// What `RemoveMeal` does: remove the meal and take the confirm card down
/// with it, or report that the meal was already gone.
pub open spec fn remove_meal_spec(
    st0: State,
    st1: State,
    ctx: CallbackContext,
    meal_id: Seq<char>,
    batch: Seq<RequestKindView>,
) -> bool {
    &&& only_meals_touched(st0, st1)
    &&& !has_entry(st1.meals@, meal_id)
    &&& if has_entry(st0.meals@, meal_id) {
        exists|i: int|
            0 <= i < st0.meals@.len() && st0.meals@[i].vid() == meal_id && st1.meals@
                == st0.meals@.remove(i) && batch == delete_batch(ctx)
    } else {
        &&& st1.meals@ == st0.meals@
        &&& batch == edit_batch(ctx, (MsgTextView::Plain { note: Note::MealNotFound }), None)
    }
}

fn remove_meal_button(state: &mut State, ctx: &CallbackContext, meal_id: &String) -> (r:
    RequestResult)
    requires
        old(state).wf(),
    ensures
        final(state).wf(),
        remove_meal_spec(*old(state), *final(state), *ctx, meal_id@, r@),
{
    match state.meals.remove(meal_id) {
        Some(_meal) => delete_message_button(ctx),
        None => ButtonKind::edit_callback_text(
            ctx,
            MsgText::Plain { note: Note::MealNotFound },
            None,
        ),
    }
}

fn delete_message_button(ctx: &CallbackContext) -> (r: RequestResult)
    ensures
        r@ == delete_batch(*ctx),
{
    let mut result = RequestResult::new();
    match &ctx.message {
        Some(m) => {
            result.add(
                RequestKind::DeleteMessage { chat_id: ctx.chat_id, message_id: m.message_id },
            );
        },
        None => {},
    }
    proof {
        assert(result@ =~= delete_batch(*ctx));
    }
    result
}

fn pin_message_button(ctx: &CallbackContext) -> (r: RequestResult)
    ensures
        r@ == (match ctx.message {
            Some(m) => seq![
                RequestKindView::Pin {
                    chat_id: ctx.chat_id as int,
                    message_id: m.message_id as int,
                },
            ],
            None => Seq::<RequestKindView>::empty(),
        }),
{
    let mut result = RequestResult::new();
    match &ctx.message {
        Some(m) => {
            result.add(RequestKind::Pin { chat_id: ctx.chat_id, message_id: m.message_id });
        },
        None => {},
    }
    proof {
        assert(result@ =~= (match ctx.message {
            Some(m) => seq![
                RequestKindView::Pin {
                    chat_id: ctx.chat_id as int,
                    message_id: m.message_id as int,
                },
            ],
            None => Seq::<RequestKindView>::empty(),
        }));
    }
    result
}

/// What `RateMeal` does: set the rating in place, and re-render the star row
/// with a freshly registered keyboard, so the user can adjust or save.
pub open spec fn rate_meal_spec(
    st0: State,
    st1: State,
    ctx: CallbackContext,
    meal_id: Seq<char>,
    rating: u8,
    batch: Seq<RequestKindView>,
) -> bool {
    &&& meals_and_keyboards_touched(st0, st1)
    &&& (if has_entry(st0.meals@, meal_id) {
        exists|i: int|
            {
                &&& 0 <= i < st0.meals@.len()
                &&& (#[trigger] st0.meals@[i]).vid() == meal_id
                &&& st1.meals@ == st0.meals@.update(
                    i,
                    (MealView { rating: Some(rating), ..st0.meals@[i] }),
                )
            }
    } else {
        st1.meals@ == st0.meals@
    })
    &&& exists|kbv: KeyboardView|
        {
            &&& #[trigger] keyboard_registered(st0, st1, kbv, ctx.chat_id as int)
            &&& kbv.buttons.len() == 2
            &&& is_rate_row(kbv.buttons[0], rating, meal_id)
            &&& is_save_row(kbv.buttons[1], meal_id)
            &&& batch == edit_batch(
                ctx,
                (if has_entry(st0.meals@, meal_id) {
                    MsgTextView::MealWith {
                        meal: entry_of(st1.meals@, meal_id),
                        note: Note::ChangeRatingOrSave,
                    }
                } else {
                    MsgTextView::Plain { note: Note::NoMealToRate }
                }),
                Some(kbv),
            )
        }
}

fn rate_meal_button(state: &mut State, ctx: &CallbackContext, meal_id: &String, rating: u8) -> (r:
    RequestResult)
    requires
        old(state).wf(),
        crate::rating_in_range(rating),
    ensures
        final(state).wf(),
        rate_meal_spec(*old(state), *final(state), *ctx, meal_id@, rating, r@),
{
    let ghost s0 = old(state).meals@;
    let meal_res: Option<Meal> = match state.meals.get(meal_id) {
        Some(mut meal) => {
            let ghost m0 = meal@;
            meal.rate(Some(rating));
            let dup = meal.duplicate();
            state.meals.add(dup);
            proof {
                assert(s0.contains(m0));
                let k = choose|k: int| 0 <= k < s0.len() && s0[k] == m0;
                assert(s0[k].vid() == meal_id@);
                assert(has_entry(s0, meal@.vid()));
                let i = choose|i: int|
                    0 <= i < s0.len() && s0[i].vid() == meal@.vid() && state.meals@ == s0.update(
                        i,
                        meal@,
                    );
                assert(s0.contains(s0[i]));
                crate::store::lemma_entry_unique(s0, s0[i], m0);
                assert(s0[i] == m0);
                assert(meal@ == (MealView { rating: Some(rating), ..s0[i] }));
                lemma_entry_of(state.meals@, meal_id@, i);
                assert(entry_of(state.meals@, meal_id@) == meal@);
                assert forall|p: int| 0 <= p < state.meals@.len() implies (
                #[trigger] state.meals@[p]).wf() by {
                    if p != i {
                        assert(state.meals@[p] == s0[p]);
                    }
                }
            }
            Some(meal)
        },
        None => None,
    };
    let ghost s1m = state.meals@;
    let mut rows: Vec<Vec<Button>> = Vec::new();
    let rrow = rate_meal_button_row(rating, meal_id);
    let srow = save_meal_button_row(meal_id);
    let ghost rrv = row_views(rrow@);
    let ghost srv = row_views(srow@);
    let ghost e0 = rows@;
    rows.push(rrow);
    proof {
        lemma_rows_views_push(e0, rows@.last());
        assert(rows@ =~= e0.push(rows@.last()));
    }
    let ghost one = rows@;
    rows.push(srow);
    let ghost grid = rows_views(rows@);
    proof {
        lemma_rows_views_push(one, rows@.last());
        assert(rows@ =~= one.push(rows@.last()));
        assert(grid =~= seq![rrv, srv]);
    }
    let keyboard = Keyboard::new(ctx.chat_id).buttons(rows);
    let ghost kbv = keyboard@;
    proof {
        assert(kbv.buttons == stamp_rows(grid, kbv.id));
        assert(kbv.buttons[0] == stamp_row(rrv, kbv.id));
        assert(kbv.buttons[1] == stamp_row(srv, kbv.id));
        lemma_stamp_preserves_rate_row_pub(rrv, kbv.id, rating, meal_id@);
        lemma_stamp_preserves_save_row_pub(srv, kbv.id, meal_id@);
        assert forall|i: int, j: int|
            0 <= i < grid.len() && 0 <= j < grid[i].len() implies id_wf(
            (#[trigger] grid[i][j]).id,
        ) && grid[i][j].kind.wf() by {
            if i == 0 {
                assert(grid[i][j] == rrv[j]);
                assert(id_wf(rrv[j].id));
                assert(rrv[j].kind matches ButtonKindView::RateMeal { rating: rr, .. } && 1 <= rr
                    <= 5);
            } else {
                assert(grid[i][j] == srv[j]);
                assert(id_wf(srv[j].id));
            }
        }
        lemma_built_keyboard_wf(kbv, grid);
        assert(kbv.buttons[0].len() == 5);
        assert(kbv.has_buttons());
    }
    let keyboard = keyboard.save(state);
    proof {
        assert(state.meals@ == s1m);
        assert(keyboard_registered(*old(state), *state, kbv, ctx.chat_id as int));
    }
    let out = match meal_res {
        Some(meal) => {
            proof {
                assert(meal@ == entry_of(s1m, meal_id@));
            }
            ButtonKind::edit_callback_text(
                ctx,
                MsgText::MealWith { meal, note: Note::ChangeRatingOrSave },
                Some(keyboard),
            )
        },
        None => ButtonKind::edit_callback_text(
            ctx,
            MsgText::Plain { note: Note::NoMealToRate },
            Some(keyboard),
        ),
    };
    out
}

pub proof fn lemma_stamp_preserves_rate_row_pub(
    row: Seq<ButtonView>,
    id: Seq<char>,
    rating: u8,
    meal_id: Seq<char>,
)
    requires
        is_rate_row(row, rating, meal_id),
    ensures
        is_rate_row(stamp_row(row, id), rating, meal_id),
{
    assert forall|i: int|
        0 <= i < 5 implies ((#[trigger] stamp_row(row, id)[i]).kind
        matches ButtonKindView::RateMeal { meal_id: m, rating: rr } && m == meal_id && rr == i
        + 1) by {
        assert(stamp_row(row, id)[i] == (ButtonView { keyboard_id: Some(id), ..row[i] }));
    }
}

pub proof fn lemma_stamp_preserves_save_row_pub(row: Seq<ButtonView>, id: Seq<char>, meal_id: Seq<char>)
    requires
        is_save_row(row, meal_id),
    ensures
        is_save_row(stamp_row(row, id), meal_id),
{
    assert(stamp_row(row, id)[0] == (ButtonView { keyboard_id: Some(id), ..row[0] }));
    assert(stamp_row(row, id)[1] == (ButtonView { keyboard_id: Some(id), ..row[1] }));
}

/// The single cancel button under a vote that nobody joined yet.
pub open spec fn is_cancel_row(row: Seq<ButtonView>, poll_id: Seq<char>) -> bool {
    &&& row.len() == 1
    &&& (row[0].kind matches ButtonKindView::CancelPollRating { poll_id: p } && p == poll_id)
}

/// The confirm pair under a vote that collected tallies: save them now, or
/// cancel the poll.
pub open spec fn is_poll_save_row(row: Seq<ButtonView>, meal_id: Seq<char>, poll_id: Seq<char>) -> bool {
    &&& row.len() == 2
    &&& (row[0].kind matches ButtonKindView::SavePollRating { meal_id: m, poll_id: p } && m
        == meal_id && p == poll_id)
    &&& row[0].text == "SAVE"@
    &&& (row[1].kind matches ButtonKindView::CancelPollRating { poll_id: p } && p == poll_id)
    &&& row[1].text == "CANCEL"@
}

/// Stamping changes ownership only: every button keeps its size, label and
/// action.
pub proof fn lemma_stamp_grid(rows: Seq<Seq<ButtonView>>, id: Seq<char>)
    ensures
        stamp_rows(rows, id).len() == rows.len(),
        forall|i: int|
            0 <= i < rows.len() ==> #[trigger] stamp_rows(rows, id)[i].len() == rows[i].len(),
        forall|i: int, j: int|
            0 <= i < rows.len() && 0 <= j < rows[i].len() ==> {
                &&& (#[trigger] stamp_rows(rows, id)[i][j]).kind == rows[i][j].kind
                &&& stamp_rows(rows, id)[i][j].text == rows[i][j].text
                &&& stamp_rows(rows, id)[i][j].id == rows[i][j].id
            },
{
    assert forall|i: int|
        0 <= i < rows.len() implies #[trigger] stamp_rows(rows, id)[i].len() == rows[i].len() by {
        assert(stamp_rows(rows, id)[i] == stamp_row(rows[i], id));
    }
    assert forall|i: int, j: int|
        0 <= i < rows.len() && 0 <= j < rows[i].len() implies {
        &&& (#[trigger] stamp_rows(rows, id)[i][j]).kind == rows[i][j].kind
        &&& stamp_rows(rows, id)[i][j].text == rows[i][j].text
        &&& stamp_rows(rows, id)[i][j].id == rows[i][j].id
    } by {
        assert(stamp_rows(rows, id)[i] == stamp_row(rows[i], id));
        assert(stamp_row(rows[i], id)[j] == (ButtonView { keyboard_id: Some(id), ..rows[i][j] }));
    }
}

/// What `SavePollRating` does: close the external poll early so its tallies
/// get folded in; the state itself is left alone until the closing update
/// arrives.
pub open spec fn save_poll_rating_spec(
    st0: State,
    ctx: CallbackContext,
    poll_id: Seq<char>,
    batch: Seq<RequestKindView>,
) -> bool {
    batch == (if has_entry(st0.polls@, poll_id) && (entry_of(st0.polls@, poll_id).poll_kind
        matches PollKindView::Meal { .. }) {
        seq![
            RequestKindView::StopPoll {
                chat_id: entry_of(st0.polls@, poll_id).chat_id,
                message_id: entry_of(st0.polls@, poll_id).message_id,
                poll: None,
            },
        ]
    } else {
        Seq::<RequestKindView>::empty()
    })
}

fn save_poll_rating_button(state: &State, ctx: &CallbackContext, poll_id: &String) -> (r:
    RequestResult)
    requires
        state.wf(),
    ensures
        save_poll_rating_spec(*state, *ctx, poll_id@, r@),
{
    let mut result = RequestResult::new();
    match state.polls.get(poll_id) {
        Some(poll) => {
            let ghost pv = poll@;
            proof {
                assert(state.polls@.contains(pv));
                let k = choose|k: int| 0 <= k < state.polls@.len() && state.polls@[k] == pv;
                lemma_entry_of(state.polls@, poll_id@, k);
                assert(entry_of(state.polls@, poll_id@) == pv);
            }
            match &poll.poll_kind {
                PollKind::Meal { .. } => {
                    result.add(
                        RequestKind::StopPoll {
                            chat_id: poll.chat_id,
                            message_id: poll.message_id,
                            poll: None,
                        },
                    );
                    proof {
                        assert(result@ =~= save_poll_rating_batch_witness(*state, poll_id@));
                    }
                },
                PollKind::Plan { .. } => {},
            }
        },
        None => {},
    }
    proof {
        assert(result@ =~= (if has_entry(state.polls@, poll_id@) && (entry_of(
            state.polls@,
            poll_id@,
        ).poll_kind matches PollKindView::Meal { .. }) {
            seq![
                RequestKindView::StopPoll {
                    chat_id: entry_of(state.polls@, poll_id@).chat_id,
                    message_id: entry_of(state.polls@, poll_id@).message_id,
                    poll: None,
                },
            ]
        } else {
            Seq::<RequestKindView>::empty()
        }));
    }
    result
}

/// The stop request that closes a rating poll early.
pub open spec fn save_poll_rating_batch_witness(st0: State, poll_id: Seq<char>) -> Seq<
    RequestKindView,
> {
    seq![
        RequestKindView::StopPoll {
            chat_id: entry_of(st0.polls@, poll_id).chat_id,
            message_id: entry_of(st0.polls@, poll_id).message_id,
            poll: None,
        },
    ]
}

/// What `CancelPollRating` does: mark the poll canceled in place and close
/// the external poll. The meal catalogue is untouched: tallies cast so far
/// will be discarded, never folded into a rating.
pub open spec fn cancel_poll_rating_spec(
    st0: State,
    st1: State,
    poll_id: Seq<char>,
    batch: Seq<RequestKindView>,
) -> bool {
    &&& only_polls_touched(st0, st1)
    &&& if has_entry(st0.polls@, poll_id) {
        exists|i: int|
            {
                &&& 0 <= i < st0.polls@.len()
                &&& (#[trigger] st0.polls@[i]).vid() == poll_id
                &&& st1.polls@ == st0.polls@.update(
                    i,
                    (PollView { is_canceled: true, ..st0.polls@[i] }),
                )
                &&& batch == seq![
                    RequestKindView::StopPoll {
                        chat_id: st0.polls@[i].chat_id,
                        message_id: st0.polls@[i].message_id,
                        poll: Some((PollView { is_canceled: true, ..st0.polls@[i] })),
                    },
                ]
            }
    } else {
        st1.polls@ == st0.polls@ && batch == Seq::<RequestKindView>::empty()
    }
}

fn cancel_poll_rating_button(state: &mut State, poll_id: &String) -> (r: RequestResult)
    requires
        old(state).wf(),
    ensures
        final(state).wf(),
        cancel_poll_rating_spec(*old(state), *final(state), poll_id@, r@),
{
    let ghost s0 = old(state).polls@;
    let mut result = RequestResult::new();
    match state.polls.get(poll_id) {
        Some(mut poll) => {
            let ghost p0 = poll@;
            poll.cancel();
            let dup = poll.duplicate();
            state.polls.add(dup);
            proof {
                assert(s0.contains(p0));
                let k = choose|k: int| 0 <= k < s0.len() && s0[k] == p0;
                assert(s0[k].vid() == poll_id@);
                assert(has_entry(s0, poll@.vid()));
                let i = choose|i: int|
                    0 <= i < s0.len() && s0[i].vid() == poll@.vid() && state.polls@ == s0.update(
                        i,
                        poll@,
                    );
                assert(s0.contains(s0[i]));
                crate::store::lemma_entry_unique(s0, s0[i], p0);
                assert(poll@ == (PollView { is_canceled: true, ..s0[i] }));
                assert forall|p: int| 0 <= p < state.polls@.len() implies (
                #[trigger] state.polls@[p]).wf() by {
                    if p != i {
                        assert(state.polls@[p] == s0[p]);
                    }
                }
            }
            result.add(
                RequestKind::StopPoll {
                    chat_id: poll.chat_id,
                    message_id: poll.message_id,
                    poll: Some(poll),
                },
            );
            proof {
                assert(result@ =~= seq![
                    RequestKindView::StopPoll {
                        chat_id: p0.chat_id,
                        message_id: p0.message_id,
                        poll: Some((PollView { is_canceled: true, ..p0 })),
                    },
                ]);
            }
        },
        None => {},
    }
    result
}

/// The five option lines of a rating poll: one to five stars.
pub open spec fn star_list() -> Seq<Seq<char>> {
    Seq::new(5, |i: int| star_run(i + 1))
}

/// What `PollRating` does: announce the vote on the meal's card, then send a
/// five-option star poll with a cancel button, registered and correlated to
/// the poll record that the transport's reply will complete.
pub open spec fn poll_rating_spec(
    st0: State,
    st1: State,
    ctx: CallbackContext,
    meal_id: Seq<char>,
    batch: Seq<RequestKindView>,
) -> bool {
    &&& st1.meals == st0.meals
    &&& st1.plans == st0.plans
    &&& st1.polls == st0.polls
    &&& st1.whitelist == st0.whitelist
    &&& st1.config == st0.config
    &&& match ctx.message {
        None => st1.keyboards == st0.keyboards && batch == Seq::<RequestKindView>::empty(),
        Some(m) => if !has_entry(st0.meals@, meal_id) {
            st1.keyboards == st0.keyboards && batch == Seq::<RequestKindView>::empty()
        } else {
            exists|kbv: KeyboardView, bv: PollBuildView|
                {
                    &&& keyboard_registered(st0, st1, kbv, ctx.chat_id as int)
                    &&& kbv.buttons.len() == 1
                    &&& #[trigger] is_cancel_row(kbv.buttons[0], bv.id)
                    &&& bv.chat_id == ctx.chat_id as int
                    &&& (bv.poll_kind matches PollKindView::Meal {
                        meal_id: bm,
                        reply_message_id: rm,
                    } && bm == meal_id && rm == m.message_id as int)
                    &&& bv.keyboard_id == kbv.id
                    &&& bv.is_canceled == false
                    &&& id_wf(bv.id)
                    &&& batch == seq![
                        RequestKindView::EditMessage {
                            chat_id: ctx.chat_id as int,
                            message_id: m.message_id as int,
                            text: (MsgTextView::MealWith {
                                meal: entry_of(st0.meals@, meal_id),
                                note: Note::Voting,
                            }),
                            keyboard: None,
                        },
                        RequestKindView::Poll {
                            chat_id: ctx.chat_id as int,
                            question: (MsgTextView::RateQuestion {
                                meal_name: upper_of(entry_of(st0.meals@, meal_id).name),
                            }),
                            answers: star_list(),
                            reply_to: Some(m.message_id as int),
                            keyboard: Some(kbv),
                            builder: bv,
                        },
                    ]
                }
        },
    }
}

fn poll_rating_button(state: &mut State, ctx: &CallbackContext, meal_id: &String) -> (r:
    RequestResult)
    requires
        old(state).wf(),
    ensures
        final(state).wf(),
        poll_rating_spec(*old(state), *final(state), *ctx, meal_id@, r@),
{
    let mut result = RequestResult::new();
    let msg = match &ctx.message {
        Some(m) => MessageRef { message_id: m.message_id, has_photo: m.has_photo },
        None => {
            proof {
                assert(result@ =~= Seq::<RequestKindView>::empty());
            }
            return result;
        },
    };
    let meal = match state.meals.get(meal_id) {
        Some(meal) => meal,
        None => {
            proof {
                assert(result@ =~= Seq::<RequestKindView>::empty());
            }
            return result;
        },
    };
    let ghost mv = meal@;
    proof {
        assert(old(state).meals@.contains(mv));
        let k = choose|k: int|
            0 <= k < old(state).meals@.len() && old(state).meals@[k] == mv;
        lemma_entry_of(old(state).meals@, meal_id@, k);
        assert(entry_of(old(state).meals@, meal_id@) == mv);
    }
    let question = to_upper(meal.name.as_str());
    result.add(
        RequestKind::EditMessage {
            chat_id: ctx.chat_id,
            message_id: msg.message_id,
            text: MsgText::MealWith { meal, note: Note::Voting },
            keyboard: None,
        },
    );
    let keyboard0 = Keyboard::new(ctx.chat_id);
    let kb_id = keyboard0.id.clone();
    let builder = Poll::build(
        ctx.chat_id,
        PollKind::Meal { meal_id: meal_id.clone(), reply_message_id: msg.message_id },
        kb_id,
    );
    let ghost bv = builder@;
    let cancel_button = Button::new(
        String::from_str("CANCEL"),
        ButtonKind::CancelPollRating { poll_id: builder.id.clone() },
    );
    let ghost cbv = cancel_button@;
    let mut row: Vec<Button> = Vec::new();
    let ghost er = row@;
    row.push(cancel_button);
    proof {
        crate::button::lemma_row_views_push(er, row@.last());
        assert(row@ =~= er.push(row@.last()));
    }
    let ghost rv = row_views(row@);
    let mut rows: Vec<Vec<Button>> = Vec::new();
    let ghost eg = rows@;
    rows.push(row);
    proof {
        lemma_rows_views_push(eg, rows@.last());
        assert(rows@ =~= eg.push(rows@.last()));
    }
    let ghost grid = rows_views(rows@);
    proof {
        assert(grid =~= seq![rv]);
        assert(rv =~= seq![cbv]);
    }
    let keyboard = keyboard0.buttons(rows);
    let ghost kbv = keyboard@;
    proof {
        assert(kbv.buttons == stamp_rows(grid, kbv.id));
        lemma_stamp_grid(grid, kbv.id);
        assert(kbv.buttons[0].len() == 1);
        assert(kbv.buttons[0][0].kind == cbv.kind);
        assert(is_cancel_row(kbv.buttons[0], bv.id));
        assert forall|i: int, j: int|
            0 <= i < grid.len() && 0 <= j < grid[i].len() implies id_wf(
            (#[trigger] grid[i][j]).id,
        ) && grid[i][j].kind.wf() by {
            assert(grid[i][j] == cbv);
        }
        lemma_built_keyboard_wf(kbv, grid);
        assert(kbv.has_buttons());
    }
    let keyboard = keyboard.save(state);
    let answers = star_answers();
    proof {
        lemma_deep_is_str_views(answers);
        assert(str_views(answers@) =~= star_list());
    }
    result.add(
        RequestKind::Poll {
            chat_id: ctx.chat_id,
            question: MsgText::RateQuestion { meal_name: question },
            answers,
            reply_to: Some(msg.message_id),
            keyboard: Some(keyboard),
            builder,
        },
    );
    proof {
        assert(keyboard_registered(*old(state), *state, kbv, ctx.chat_id as int));
        assert(result@ =~= seq![
            RequestKindView::EditMessage {
                chat_id: ctx.chat_id as int,
                message_id: msg.message_id as int,
                text: (MsgTextView::MealWith { meal: mv, note: Note::Voting }),
                keyboard: None,
            },
            RequestKindView::Poll {
                chat_id: ctx.chat_id as int,
                question: (MsgTextView::RateQuestion { meal_name: upper_of(mv.name) }),
                answers: star_list(),
                reply_to: Some(msg.message_id as int),
                keyboard: Some(kbv),
                builder: bv,
            },
        ]);
    }
    result
}

/// The navigation row under a meal card opened from the list.
pub open spec fn is_back_exit_row(row: Seq<ButtonView>) -> bool {
    &&& row.len() == 2
    &&& row[0].kind == ButtonKindView::ShowList
    &&& row[1].kind == ButtonKindView::DeleteMessage
}

/// What `DisplayListMeal` does: show the chosen meal's card with a
/// back-to-list row, or say the meal is gone; either way a fresh keyboard is
/// registered for the navigation buttons.
pub open spec fn display_list_meal_spec(
    st0: State,
    st1: State,
    ctx: CallbackContext,
    meal_id: Seq<char>,
    batch: Seq<RequestKindView>,
) -> bool {
    &&& meals_and_keyboards_touched(st0, st1)
    &&& st1.meals == st0.meals
    &&& exists|kbv: KeyboardView|
        {
            &&& #[trigger] keyboard_registered(st0, st1, kbv, ctx.chat_id as int)
            &&& kbv.buttons.len() == 1
            &&& is_back_exit_row(kbv.buttons[0])
            &&& batch == edit_batch(
                ctx,
                (if has_entry(st0.meals@, meal_id) {
                    MsgTextView::MealOnly { meal: entry_of(st0.meals@, meal_id) }
                } else {
                    MsgTextView::Plain { note: Note::MealNotFound }
                }),
                Some(kbv),
            )
        }
}

fn display_list_meal_button(state: &mut State, ctx: &CallbackContext, meal_id: &String) -> (r:
    RequestResult)
    requires
        old(state).wf(),
    ensures
        final(state).wf(),
        display_list_meal_spec(*old(state), *final(state), *ctx, meal_id@, r@),
{
    let back_button = Button::new(String::from_str("Back"), ButtonKind::ShowList);
    let exit_button = Button::new(String::from_str("Exit"), ButtonKind::DeleteMessage);
    let ghost backv = back_button@;
    let ghost exitv = exit_button@;
    let mut row: Vec<Button> = Vec::new();
    let ghost er = row@;
    row.push(back_button);
    proof {
        crate::button::lemma_row_views_push(er, row@.last());
        assert(row@ =~= er.push(row@.last()));
    }
    let ghost one = row@;
    row.push(exit_button);
    proof {
        crate::button::lemma_row_views_push(one, row@.last());
        assert(row@ =~= one.push(row@.last()));
    }
    let ghost rv = row_views(row@);
    let mut rows: Vec<Vec<Button>> = Vec::new();
    let ghost eg = rows@;
    rows.push(row);
    proof {
        lemma_rows_views_push(eg, rows@.last());
        assert(rows@ =~= eg.push(rows@.last()));
    }
    let ghost grid = rows_views(rows@);
    proof {
        assert(grid =~= seq![rv]);
        assert(rv =~= seq![backv, exitv]);
    }
    let keyboard = Keyboard::new(ctx.chat_id).buttons(rows);
    let ghost kbv = keyboard@;
    proof {
        lemma_stamp_grid(grid, kbv.id);
        assert(kbv.buttons[0].len() == 2);
        assert(is_back_exit_row(kbv.buttons[0]));
        assert forall|i: int, j: int|
            0 <= i < grid.len() && 0 <= j < grid[i].len() implies id_wf(
            (#[trigger] grid[i][j]).id,
        ) && grid[i][j].kind.wf() by {
            if j == 0 {
                assert(grid[i][j] == backv);
            } else {
                assert(grid[i][j] == exitv);
            }
        }
        lemma_built_keyboard_wf(kbv, grid);
        assert(kbv.has_buttons());
    }
    let keyboard = keyboard.save(state);
    proof {
        assert(keyboard_registered(*old(state), *state, kbv, ctx.chat_id as int));
    }
    let out = match state.meals.get(meal_id) {
        Some(meal) => {
            let ghost mv = meal@;
            proof {
                assert(state.meals@.contains(mv));
                let k = choose|k: int| 0 <= k < state.meals@.len() && state.meals@[k] == mv;
                lemma_entry_of(state.meals@, meal_id@, k);
            }
            ButtonKind::edit_callback_text(ctx, MsgText::MealOnly { meal }, Some(keyboard))
        },
        None => ButtonKind::edit_callback_text(
            ctx,
            MsgText::Plain { note: Note::MealNotFound },
            Some(keyboard),
        ),
    };
    out
}

/// A grid of list buttons: each one opens the meal at its place in the
/// chat's catalogue, four to a row.
pub open spec fn is_list_grid(rows: Seq<Seq<ButtonView>>, meals: Seq<MealView>) -> bool {
    &&& grid_shape(rows, meals.len() as int)
    &&& forall|i: int, j: int|
        0 <= i < rows.len() && 0 <= j < rows[i].len() ==> {
            &&& 0 <= 4 * i + j < meals.len()
            &&& ((#[trigger] rows[i][j]).kind matches ButtonKindView::DisplayListMeal {
                meal_id,
            } && meal_id == meals[4 * i + j].id)
            &&& rows[i][j].text == meals[4 * i + j].name
        }
}

/// The list buttons for every meal of the chat, four to a row.
pub fn meal_buttons(state: &State, chat_id: i64) -> (r: Vec<Vec<Button>>)
    ensures
        is_list_grid(rows_views(r@), state.meals@.filter(crate::store::by_chat(chat_id as int))),
        (r@.len() == 0) == (state.meals@.filter(crate::store::by_chat(chat_id as int)).len() == 0),
        forall|i: int| 0 <= i < r@.len() ==> #[trigger] rows_views(r@)[i].len() > 0,
        forall|i: int, j: int|
            0 <= i < rows_views(r@).len() && 0 <= j < rows_views(r@)[i].len() ==> id_wf(
                (#[trigger] rows_views(r@)[i][j]).id,
            ),
{
    let ghost list = state.meals@.filter(crate::store::by_chat(chat_id as int));
    let chat_meals = state.meals.all_chat(chat_id);
    let total = chat_meals.len();
    let mut rows: Vec<Vec<Button>> = Vec::new();
    let mut done: usize = 0;
    proof {
        assert(crate::store::views_of(chat_meals@) == list);
    }
    while done < total
        invariant
            0 <= done <= total,
            total == list.len(),
            crate::store::views_of(chat_meals@) == list,
            total == chat_meals@.len(),
            done < total ==> done == rows@.len() * 4,
            done == total ==> rows@.len() == (total + 3) / 4,
            forall|i: int|
                0 <= i < rows@.len() ==> #[trigger] rows_views(rows@)[i].len() == (if 4 * i + 4
                    <= total {
                    4int
                } else {
                    total - 4 * i
                }),
            forall|i: int, j: int|
                0 <= i < rows_views(rows@).len() && 0 <= j < rows_views(rows@)[i].len() ==> {
                    &&& 0 <= 4 * i + j < list.len()
                    &&& ((#[trigger] rows_views(rows@)[i][j]).kind
                        matches ButtonKindView::DisplayListMeal { meal_id } && meal_id == list[4
                        * i + j].id)
                    &&& rows_views(rows@)[i][j].text == list[4 * i + j].name
                },
            done > 0 ==> rows@.len() > 0,
            done == 0 ==> rows@.len() == 0,
            forall|i: int| 0 <= i < rows@.len() ==> #[trigger] rows_views(rows@)[i].len() > 0,
            forall|i: int, j: int|
                0 <= i < rows_views(rows@).len() && 0 <= j < rows_views(rows@)[i].len() ==> id_wf(
                    (#[trigger] rows_views(rows@)[i][j]).id,
                ),
        decreases total - done,
    {
        let mut row: Vec<Button> = Vec::new();
        let start = done;
        let ghost rowindex = rows@.len() as int;
        let mut j: usize = 0;
        while j < 4 && start + j < total
            invariant
                0 <= j <= 4,
                start + j <= total,
                start == rowindex * 4,
                rowindex >= 0,
                total == list.len(),
                total == chat_meals@.len(),
                crate::store::views_of(chat_meals@) == list,
                row_views(row@).len() == j,
                forall|q: int|
                    0 <= q < j ==> {
                        &&& 0 <= start + q < list.len()
                        &&& ((#[trigger] row_views(row@)[q]).kind
                            matches ButtonKindView::DisplayListMeal { meal_id } && meal_id == list[
                            start + q
                        ].id)
                        &&& row_views(row@)[q].text == list[start + q].name
                        &&& id_wf(row_views(row@)[q].id)
                    },
            decreases 4 - j,
        {
            let meal = &chat_meals[start + j];
            proof {
                assert(chat_meals@[start + j as int]@ == list[start + j as int]);
            }
            let button = Button::new(
                meal.name.clone(),
                ButtonKind::DisplayListMeal { meal_id: meal.id.clone() },
            );
            let ghost pr = row@;
            row.push(button);
            proof {
                crate::button::lemma_row_views_push(pr, row@.last());
                assert(row@ =~= pr.push(row@.last()));
            }
            j = j + 1;
        }
        let ghost pg = rows@;
        rows.push(row);
        done = start + j;
        proof {
            lemma_rows_views_push(pg, rows@.last());
            assert(rows@ =~= pg.push(rows@.last()));
            let k = pg.len() as int;
            assert(1 <= j);
            assert(rows_views(rows@)[k].len() == j as int);
            assert(j as int == (if 4 * k + 4 <= total {
                4int
            } else {
                total - 4 * k
            }));
            assert forall|i: int|
                0 <= i < rows@.len() implies #[trigger] rows_views(rows@)[i].len() == (if 4 * i + 4
                <= total {
                4int
            } else {
                total - 4 * i
            }) by {
                if i < k {
                    assert(rows_views(rows@)[i] == rows_views(pg)[i]);
                }
            }
            if done == total {
                assert(4 * (k + 1) <= total + 3 && total + 3 < 4 * (k + 2));
                assert((total + 3) / 4 == k + 1) by (nonlinear_arith)
                    requires
                        4 * (k + 1) <= total + 3 < 4 * (k + 2),
                        k >= 0,
                ;
            }
        }
    }
    proof {
        if total == 0 {
            assert(rows@.len() == 0);
        }
        assert(is_list_grid(rows_views(rows@), list));
    }
    rows
}

/// What `ShowList` does: show the clickable list of the chat's meals under a
/// fresh keyboard, or note that nothing is saved yet.
pub open spec fn show_list_spec(
    st0: State,
    st1: State,
    ctx: CallbackContext,
    batch: Seq<RequestKindView>,
) -> bool {
    &&& meals_and_keyboards_touched(st0, st1)
    &&& st1.meals == st0.meals
    &&& if st0.meals@.filter(crate::store::by_chat(ctx.chat_id as int)).len() > 0 {
        exists|kbv: KeyboardView|
            {
                &&& #[trigger] keyboard_registered(st0, st1, kbv, ctx.chat_id as int)
                &&& is_list_grid(
                    kbv.buttons,
                    st0.meals@.filter(crate::store::by_chat(ctx.chat_id as int)),
                )
                &&& batch == edit_batch(ctx, (MsgTextView::Plain { note: Note::ListHeader }), Some(kbv))
            }
    } else {
        &&& st1.keyboards == st0.keyboards
        &&& batch == edit_batch(ctx, (MsgTextView::Plain { note: Note::NoMealsSaved }), None)
    }
}

fn show_list_button(state: &mut State, ctx: &CallbackContext) -> (r: RequestResult)
    requires
        old(state).wf(),
    ensures
        final(state).wf(),
        show_list_spec(*old(state), *final(state), *ctx, r@),
{
    let ghost list = old(state).meals@.filter(crate::store::by_chat(ctx.chat_id as int));
    let buttons = meal_buttons(state, ctx.chat_id);
    if buttons.len() > 0 {
        let ghost grid = rows_views(buttons@);
        proof {
            assert(list.len() > 0) by {
                if list.len() == 0 {
                    assert(buttons@.len() == 0);
                }
            }
        }
        let keyboard = Keyboard::new(ctx.chat_id).buttons(buttons);
        let ghost kbv = keyboard@;
        proof {
            lemma_stamp_grid(grid, kbv.id);
            assert(is_list_grid(kbv.buttons, list)) by {
                assert forall|i: int, j: int|
                    0 <= i < kbv.buttons.len() && 0 <= j < kbv.buttons[i].len() implies {
                    &&& 0 <= 4 * i + j < list.len()
                    &&& ((#[trigger] kbv.buttons[i][j]).kind
                        matches ButtonKindView::DisplayListMeal { meal_id } && meal_id == list[4 * i
                        + j].id)
                    &&& kbv.buttons[i][j].text == list[4 * i + j].name
                } by {
                    assert(kbv.buttons[i][j].kind == grid[i][j].kind);
                    assert(kbv.buttons[i][j].text == grid[i][j].text);
                }
            }
            assert forall|i: int, j: int|
                0 <= i < grid.len() && 0 <= j < grid[i].len() implies id_wf(
                (#[trigger] grid[i][j]).id,
            ) && grid[i][j].kind.wf() by {}
            lemma_built_keyboard_wf(kbv, grid);
            assert(grid[0].len() > 0);
            assert(kbv.buttons[0].len() == grid[0].len());
            assert(kbv.has_buttons());
        }
        let keyboard = keyboard.save(state);
        proof {
            assert(keyboard_registered(*old(state), *state, kbv, ctx.chat_id as int));
        }
        ButtonKind::edit_callback_text(
            ctx,
            MsgText::Plain { note: Note::ListHeader },
            Some(keyboard),
        )
    } else {
        ButtonKind::edit_callback_text(ctx, MsgText::Plain { note: Note::NoMealsSaved }, None)
    }
}

/// The control row under a plan poll: reroll the plan, clear the votes, or
/// take the poll down.
pub open spec fn is_control_row(row: Seq<ButtonView>, plan_id: Seq<char>) -> bool {
    &&& row.len() == 3
    &&& row[0].kind == ButtonKindView::RerollPlan
    &&& row[0].text == "Reroll"@
    &&& row[1].kind == ButtonKindView::ClearVotes
    &&& row[1].text == "Clear"@
    &&& (row[2].kind matches ButtonKindView::RemovePlanPoll { plan_id: p } && p == plan_id)
    &&& row[2].text == "Exit"@
}

/// Rows of plan info buttons: each opens the meal at its place in the plan,
/// four to a row.
pub open spec fn is_plan_info_rows(rows: Seq<Seq<ButtonView>>, plan: PlanView) -> bool {
    &&& grid_shape(rows, plan.meals.len() as int)
    &&& forall|i: int, j: int|
        0 <= i < rows.len() && 0 <= j < rows[i].len() ==> {
            &&& 0 <= 4 * i + j < plan.meals.len()
            &&& ((#[trigger] rows[i][j]).kind matches ButtonKindView::DisplayPlanMeal {
                meal_id,
                plan_id,
            } && meal_id == plan.meals[4 * i + j].id && plan_id == plan.id)
            &&& rows[i][j].text == plan.meals[4 * i + j].name
        }
}

/// The whole grid under a plan poll: the info rows and the control row last.
pub open spec fn is_plan_poll_grid(rows: Seq<Seq<ButtonView>>, plan: PlanView) -> bool {
    &&& rows.len() >= 1
    &&& is_control_row(rows[rows.len() - 1], plan.id)
    &&& is_plan_info_rows(rows.take(rows.len() - 1), plan)
}

/// The plan's info buttons with the Reroll / Clear / Exit control row under
/// them.
pub fn poll_plan_buttons(plan: &Plan) -> (r: Vec<Vec<Button>>)
    ensures
        is_plan_poll_grid(rows_views(r@), plan@),
        forall|i: int, j: int|
            0 <= i < rows_views(r@).len() && 0 <= j < rows_views(r@)[i].len() ==> id_wf(
                (#[trigger] rows_views(r@)[i][j]).id,
            ) && rows_views(r@)[i][j].kind.wf(),
{
    let mut rows = plan.buttons();
    let ghost info = rows_views(rows@);
    let reroll_button = Button::new(String::from_str("Reroll"), ButtonKind::RerollPlan);
    let clear_button = Button::new(String::from_str("Clear"), ButtonKind::ClearVotes);
    let exit_button = Button::new(
        String::from_str("Exit"),
        ButtonKind::RemovePlanPoll { plan_id: plan.id.clone() },
    );
    let ghost rbv = reroll_button@;
    let ghost cbv = clear_button@;
    let ghost ebv = exit_button@;
    let mut control: Vec<Button> = Vec::new();
    let ghost c0 = control@;
    control.push(reroll_button);
    proof {
        crate::button::lemma_row_views_push(c0, control@.last());
        assert(control@ =~= c0.push(control@.last()));
    }
    let ghost c1 = control@;
    control.push(clear_button);
    proof {
        crate::button::lemma_row_views_push(c1, control@.last());
        assert(control@ =~= c1.push(control@.last()));
    }
    let ghost c2 = control@;
    control.push(exit_button);
    proof {
        crate::button::lemma_row_views_push(c2, control@.last());
        assert(control@ =~= c2.push(control@.last()));
        assert(row_views(control@) =~= seq![rbv, cbv, ebv]);
    }
    let ghost ctl = row_views(control@);
    let ghost before = rows@;
    rows.push(control);
    proof {
        lemma_rows_views_push(before, rows@.last());
        assert(rows@ =~= before.push(rows@.last()));
        assert(rows_views(rows@) =~= info.push(ctl));
        assert(rows_views(rows@).take(rows_views(rows@).len() - 1) =~= info);
        assert forall|i: int, j: int|
            0 <= i < info.len() && 0 <= j < info[i].len() implies {
            &&& 0 <= 4 * i + j < plan@.meals.len()
            &&& ((#[trigger] info[i][j]).kind matches ButtonKindView::DisplayPlanMeal {
                meal_id,
                plan_id,
            } && meal_id == plan@.meals[4 * i + j].id && plan_id == plan@.id)
            &&& info[i][j].text == plan@.meals[4 * i + j].name
            &&& id_wf(info[i][j].id)
        } by {
            assert(info[i] == row_views(before[i]@));
            assert(info[i][j] == before[i]@[j]@);
        }
    }
    rows
}

/// What `ShowPlan` does: re-render the chat's plan with its info and control
/// buttons under a fresh keyboard, or say that no plan exists yet.
pub open spec fn show_plan_spec(
    st0: State,
    st1: State,
    ctx: CallbackContext,
    batch: Seq<RequestKindView>,
) -> bool {
    &&& st1.meals == st0.meals
    &&& st1.plans == st0.plans
    &&& st1.polls == st0.polls
    &&& st1.whitelist == st0.whitelist
    &&& st1.config == st0.config
    &&& if exists|i: int|
        0 <= i < st0.plans@.len() && (#[trigger] st0.plans@[i]).vchat() == ctx.chat_id as int {
        exists|planv: PlanView, kbv: KeyboardView|
            {
                &&& st0.plans@.contains(planv)
                &&& planv.vchat() == ctx.chat_id as int
                &&& keyboard_registered(st0, st1, kbv, ctx.chat_id as int)
                &&& #[trigger] is_plan_poll_grid(kbv.buttons, planv)
                &&& batch == edit_batch(
                    ctx,
                    (MsgTextView::Plain { note: Note::PlanHeader }),
                    Some(kbv),
                )
            }
    } else {
        &&& st1.keyboards == st0.keyboards
        &&& batch == edit_batch(ctx, (MsgTextView::Plain { note: Note::NoPlanExists }), None)
    }
}

fn show_plan_button(state: &mut State, ctx: &CallbackContext) -> (r: RequestResult)
    requires
        old(state).wf(),
    ensures
        final(state).wf(),
        show_plan_spec(*old(state), *final(state), *ctx, r@),
{
    match state.first_plan(ctx.chat_id) {
        Some(plan) => {
            let ghost planv = plan@;
            proof {
                let k = choose|k: int|
                    0 <= k < state.plans@.len() && state.plans@[k] == planv;
                assert(state.plans@[k].vchat() == ctx.chat_id as int);
            }
            let grid_buttons = poll_plan_buttons(&plan);
            let ghost grid = rows_views(grid_buttons@);
            let keyboard = Keyboard::new(ctx.chat_id).buttons(grid_buttons);
            let ghost kbv = keyboard@;
            proof {
                lemma_stamp_grid(grid, kbv.id);
                assert(is_control_row(kbv.buttons[kbv.buttons.len() - 1], planv.id)) by {
                    let last = grid.len() - 1;
                    assert(kbv.buttons[last].len() == grid[last].len());
                    assert(kbv.buttons[last][0].kind == grid[last][0].kind);
                    assert(kbv.buttons[last][1].kind == grid[last][1].kind);
                    assert(kbv.buttons[last][2].kind == grid[last][2].kind);
                    assert(kbv.buttons[last][0].text == grid[last][0].text);
                    assert(kbv.buttons[last][1].text == grid[last][1].text);
                    assert(kbv.buttons[last][2].text == grid[last][2].text);
                }
                assert(is_plan_info_rows(kbv.buttons.take(kbv.buttons.len() - 1), planv)) by {
                    let pre = kbv.buttons.take(kbv.buttons.len() - 1);
                    let gpre = grid.take(grid.len() - 1);

                    assert(pre.len() == gpre.len());
                    assert forall|pi: int| 0 <= pi < pre.len() implies #[trigger] pre[pi].len() == gpre[pi].len() by {
                        assert(pre[pi] == kbv.buttons[pi]);
                        assert(kbv.buttons[pi].len() == grid[pi].len());
                        assert(gpre[pi] == grid[pi]);
                    }
                    assert forall|i: int, j: int|
                        0 <= i < pre.len() && 0 <= j < pre[i].len() implies {
                        &&& 0 <= 4 * i + j < planv.meals.len()
                        &&& ((#[trigger] pre[i][j]).kind
                            matches ButtonKindView::DisplayPlanMeal { meal_id, plan_id } && meal_id
                            == planv.meals[4 * i + j].id && plan_id == planv.id)
                        &&& pre[i][j].text == planv.meals[4 * i + j].name
                    } by {
                        assert(pre[i] == kbv.buttons[i]);
                        assert(kbv.buttons[i].len() == grid[i].len());
                        assert(pre[i][j].kind == grid[i][j].kind);
                        assert(pre[i][j].text == grid[i][j].text);
                        assert(gpre[i][j] == grid[i][j]);
                    }
                }
                assert(is_plan_poll_grid(kbv.buttons, planv));
                assert forall|i: int, j: int|
                    0 <= i < grid.len() && 0 <= j < grid[i].len() implies id_wf(
                    (#[trigger] grid[i][j]).id,
                ) && grid[i][j].kind.wf() by {}
                lemma_built_keyboard_wf(kbv, grid);
                assert(kbv.buttons[grid.len() - 1].len() == 3);
                assert(kbv.has_buttons());
            }
            let keyboard = keyboard.save(state);
            proof {
                assert(keyboard_registered(*old(state), *state, kbv, ctx.chat_id as int));
            }
            ButtonKind::edit_callback_text(
                ctx,
                MsgText::Plain { note: Note::PlanHeader },
                Some(keyboard),
            )
        },
        None => ButtonKind::edit_callback_text(
            ctx,
            MsgText::Plain { note: Note::NoPlanExists },
            None,
        ),
    }
}

/// What `RemovePlanPoll` does: close the plan's external poll and take its
/// message down; the poll record itself is cleaned up when the closing
/// update arrives.
pub open spec fn remove_plan_poll_spec(
    st0: State,
    ctx: CallbackContext,
    plan_id: Seq<char>,
    batch: Seq<RequestKindView>,
) -> bool {
    if exists|i: int|
        {
            &&& 0 <= i < st0.polls@.len()
            &&& (#[trigger] st0.polls@[i]).chat_id == ctx.chat_id as int
            &&& (st0.polls@[i].poll_kind matches PollKindView::Plan { plan_id: p } && p == plan_id)
        } {
        exists|p: PollView|
            {
                &&& st0.polls@.contains(p)
                &&& p.chat_id == ctx.chat_id as int
                &&& (#[trigger] p.poll_kind matches PollKindView::Plan { plan_id: pp } && pp
                    == plan_id)
                &&& batch == seq![
                    RequestKindView::StopPoll {
                        chat_id: p.chat_id,
                        message_id: p.message_id,
                        poll: Some(p),
                    },
                    RequestKindView::DeleteMessage { chat_id: p.chat_id, message_id: p.message_id },
                ]
            }
    } else {
        batch == Seq::<RequestKindView>::empty()
    }
}

fn remove_plan_poll_button(state: &State, ctx: &CallbackContext, plan_id: &String) -> (r:
    RequestResult)
    requires
        state.wf(),
    ensures
        remove_plan_poll_spec(*state, *ctx, plan_id@, r@),
{
    let mut result = RequestResult::new();
    match state.find_plan_poll(ctx.chat_id, plan_id) {
        Some(poll) => {
            let ghost pv = poll@;
            let chat_id = poll.chat_id;
            let message_id = poll.message_id;
            result.add(RequestKind::StopPoll { chat_id, message_id, poll: Some(poll) });
            result.add(RequestKind::DeleteMessage { chat_id, message_id });
            proof {
                let k = choose|k: int| 0 <= k < state.polls@.len() && state.polls@[k] == pv;
                assert(state.polls@[k].chat_id == ctx.chat_id as int);
                assert(result@ =~= seq![
                    RequestKindView::StopPoll {
                        chat_id: pv.chat_id,
                        message_id: pv.message_id,
                        poll: Some(pv),
                    },
                    RequestKindView::DeleteMessage {
                        chat_id: pv.chat_id,
                        message_id: pv.message_id,
                    },
                ]);
            }
        },
        None => {
            proof {
                assert(result@ =~= Seq::<RequestKindView>::empty());
            }
        },
    }
    result
}

/// A witness marker, constantly true: it claims nothing and only anchors the
/// trigger of the quantifier that binds a keyboard and its poll record
/// together. The real constraints on both stand beside it.
pub open spec fn plan_poll_pair(kbv: KeyboardView, bv: PollBuildView) -> bool {
    true
}

/// A witness marker, constantly true: it claims nothing and only anchors the
/// trigger of the quantifier that binds a plan and its batch halves together.
/// The real constraints on all three stand beside it.
pub open spec fn plan_batch_parts(
    planv: PlanView,
    stop: Seq<RequestKindView>,
    rest: Seq<RequestKindView>,
) -> bool {
    true
}

/// The batch tail that replaces a plan poll: take the old message down and
/// send the fresh poll, correlated to a new keyboard and poll record.
pub open spec fn plan_poll_spec(
    st_mid: State,
    st1: State,
    ctx: CallbackContext,
    m: MessageRef,
    planv: PlanView,
    batch: Seq<RequestKindView>,
) -> bool {
    exists|kbv: KeyboardView, bv: PollBuildView|
        {
            &&& keyboard_registered(st_mid, st1, kbv, ctx.chat_id as int)
            &&& is_plan_poll_grid(kbv.buttons, planv)
            &&& #[trigger] plan_poll_pair(kbv, bv)
            &&& (bv.poll_kind matches PollKindView::Plan { plan_id: p } && p == planv.id)
            &&& bv.chat_id == ctx.chat_id as int
            &&& bv.keyboard_id == kbv.id
            &&& bv.is_canceled == false
            &&& id_wf(bv.id)
            &&& batch == seq![
                RequestKindView::DeleteMessage {
                    chat_id: ctx.chat_id as int,
                    message_id: m.message_id as int,
                },
                RequestKindView::Poll {
                    chat_id: ctx.chat_id as int,
                    question: (MsgTextView::Plain { note: Note::PlanHeader }),
                    answers: answers_of(planv.meals),
                    reply_to: None,
                    keyboard: Some(kbv),
                    builder: bv,
                },
            ]
        }
}

/// Takes the old poll message down and sends a fresh preference poll for
/// `plan`, with its grid registered and a poll record underway.
fn send_plan_poll(state: &mut State, ctx: &CallbackContext, m: &MessageRef, plan: &Plan) -> (r:
    RequestResult)
    requires
        old(state).wf(),
        forall|i: int| 0 <= i < plan@.meals.len() ==> (#[trigger] plan@.meals[i]).wf(),
    ensures
        final(state).wf(),
        final(state).meals == old(state).meals,
        final(state).plans == old(state).plans,
        final(state).polls == old(state).polls,
        final(state).whitelist == old(state).whitelist,
        final(state).config == old(state).config,
        plan_poll_spec(*old(state), *final(state), *ctx, *m, plan@, r@),
{
    let mut result = RequestResult::new();
    let grid_buttons = poll_plan_buttons(plan);
    let ghost grid = rows_views(grid_buttons@);
    let keyboard0 = Keyboard::new(ctx.chat_id);
    let kb_id = keyboard0.id.clone();
    let builder = Poll::build(
        ctx.chat_id,
        PollKind::Plan { plan_id: plan.id.clone() },
        kb_id,
    );
    let ghost bv = builder@;
    let keyboard = keyboard0.buttons(grid_buttons);
    let ghost kbv = keyboard@;
    proof {
        lemma_stamp_grid(grid, kbv.id);
        assert(is_control_row(kbv.buttons[kbv.buttons.len() - 1], plan@.id)) by {
            let last = grid.len() - 1;
            assert(kbv.buttons[last].len() == grid[last].len());
            assert(kbv.buttons[last][0].kind == grid[last][0].kind);
            assert(kbv.buttons[last][1].kind == grid[last][1].kind);
            assert(kbv.buttons[last][2].kind == grid[last][2].kind);
            assert(kbv.buttons[last][0].text == grid[last][0].text);
            assert(kbv.buttons[last][1].text == grid[last][1].text);
            assert(kbv.buttons[last][2].text == grid[last][2].text);
        }
        assert(is_plan_info_rows(kbv.buttons.take(kbv.buttons.len() - 1), plan@)) by {
            let pre = kbv.buttons.take(kbv.buttons.len() - 1);
            let gpre = grid.take(grid.len() - 1);

            assert(pre.len() == gpre.len());
            assert forall|pi: int| 0 <= pi < pre.len() implies #[trigger] pre[pi].len() == gpre[pi].len() by {
                assert(pre[pi] == kbv.buttons[pi]);
                assert(kbv.buttons[pi].len() == grid[pi].len());
                assert(gpre[pi] == grid[pi]);
            }
            assert forall|i: int, j: int|
                0 <= i < pre.len() && 0 <= j < pre[i].len() implies {
                &&& 0 <= 4 * i + j < plan@.meals.len()
                &&& ((#[trigger] pre[i][j]).kind matches ButtonKindView::DisplayPlanMeal {
                    meal_id,
                    plan_id,
                } && meal_id == plan@.meals[4 * i + j].id && plan_id == plan@.id)
                &&& pre[i][j].text == plan@.meals[4 * i + j].name
            } by {
                assert(pre[i] == kbv.buttons[i]);
                assert(kbv.buttons[i].len() == grid[i].len());
                assert(pre[i][j].kind == grid[i][j].kind);
                assert(pre[i][j].text == grid[i][j].text);
                assert(gpre[i][j] == grid[i][j]);
            }
        }
        assert(is_plan_poll_grid(kbv.buttons, plan@));
        assert forall|i: int, j: int|
            0 <= i < grid.len() && 0 <= j < grid[i].len() implies id_wf(
            (#[trigger] grid[i][j]).id,
        ) && grid[i][j].kind.wf() by {}
        lemma_built_keyboard_wf(kbv, grid);
        assert(kbv.buttons[grid.len() - 1].len() == 3);
        assert(kbv.has_buttons());
    }
    let keyboard = keyboard.save(state);
    proof {
        assert(keyboard_registered(*old(state), *state, kbv, ctx.chat_id as int));
    }
    let answers = plan.answers();
    proof {
        lemma_deep_is_str_views(answers);
    }
    result.add(
        RequestKind::DeleteMessage { chat_id: ctx.chat_id, message_id: m.message_id },
    );
    result.add(
        RequestKind::Poll {
            chat_id: ctx.chat_id,
            question: MsgText::Plain { note: Note::PlanHeader },
            answers,
            reply_to: None,
            keyboard: Some(keyboard),
            builder,
        },
    );
    proof {
        assert(plan_poll_pair(kbv, bv));
        assert(result@ =~= seq![
            RequestKindView::DeleteMessage {
                chat_id: ctx.chat_id as int,
                message_id: m.message_id as int,
            },
            RequestKindView::Poll {
                chat_id: ctx.chat_id as int,
                question: (MsgTextView::Plain { note: Note::PlanHeader }),
                answers: answers_of(plan@.meals),
                reply_to: None,
                keyboard: Some(kbv),
                builder: bv,
            },
        ]);
    }
    result
}

/// The stop request for the plan's running poll, when there is one.
pub open spec fn stop_plan_poll_part(
    st0: State,
    ctx: CallbackContext,
    plan_id: Seq<char>,
    part: Seq<RequestKindView>,
) -> bool {
    if exists|i: int|
        {
            &&& 0 <= i < st0.polls@.len()
            &&& (#[trigger] st0.polls@[i]).chat_id == ctx.chat_id as int
            &&& (st0.polls@[i].poll_kind matches PollKindView::Plan { plan_id: p } && p == plan_id)
        } {
        exists|p: PollView|
            {
                &&& st0.polls@.contains(p)
                &&& p.chat_id == ctx.chat_id as int
                &&& (#[trigger] p.poll_kind matches PollKindView::Plan { plan_id: pp } && pp
                    == plan_id)
                &&& part == seq![
                    RequestKindView::StopPoll {
                        chat_id: p.chat_id,
                        message_id: p.message_id,
                        poll: Some(p),
                    },
                ]
            }
    } else {
        part == Seq::<RequestKindView>::empty()
    }
}

fn stop_plan_poll(state: &State, ctx: &CallbackContext, plan_id: &String, result: &mut RequestResult)
    requires
        state.wf(),
    ensures
        exists|part: Seq<RequestKindView>|
            #[trigger] stop_plan_poll_part(*state, *ctx, plan_id@, part) && final(result)@ == old(
                result,
            )@ + part,
{
    match state.find_plan_poll(ctx.chat_id, plan_id) {
        Some(poll) => {
            let ghost pv = poll@;
            let chat_id = poll.chat_id;
            let message_id = poll.message_id;
            result.add(RequestKind::StopPoll { chat_id, message_id, poll: Some(poll) });
            proof {
                let k = choose|k: int| 0 <= k < state.polls@.len() && state.polls@[k] == pv;
                assert(state.polls@[k].chat_id == ctx.chat_id as int);
                let part = seq![
                    RequestKindView::StopPoll {
                        chat_id: pv.chat_id,
                        message_id: pv.message_id,
                        poll: Some(pv),
                    },
                ];
                assert(stop_plan_poll_part(*state, *ctx, plan_id@, part));
                assert(final(result)@ =~= old(result)@ + part);
            }
        },
        None => {
            proof {
                let part = Seq::<RequestKindView>::empty();
                assert(stop_plan_poll_part(*state, *ctx, plan_id@, part));
                assert(final(result)@ =~= old(result)@ + part);
            }
        },
    }
}

/// What `ClearVotes` does: keep the plan but replace its poll with a fresh
/// one, so every tally starts over.
pub open spec fn clear_votes_spec(
    st0: State,
    st1: State,
    ctx: CallbackContext,
    batch: Seq<RequestKindView>,
) -> bool {
    &&& st1.meals == st0.meals
    &&& st1.plans == st0.plans
    &&& st1.polls == st0.polls
    &&& st1.whitelist == st0.whitelist
    &&& st1.config == st0.config
    &&& match ctx.message {
        None => st1.keyboards == st0.keyboards && batch == Seq::<RequestKindView>::empty(),
        Some(m) => if !(exists|i: int|
            0 <= i < st0.plans@.len() && (#[trigger] st0.plans@[i]).vchat() == ctx.chat_id as int) {
            st1.keyboards == st0.keyboards && batch == Seq::<RequestKindView>::empty()
        } else {
            exists|planv: PlanView, stop: Seq<RequestKindView>, rest: Seq<RequestKindView>|
                {
                    &&& #[trigger] plan_batch_parts(planv, stop, rest)
                    &&& st0.plans@.contains(planv)
                    &&& planv.vchat() == ctx.chat_id as int
                    &&& stop_plan_poll_part(st0, ctx, planv.id, stop)
                    &&& plan_poll_spec(st0, st1, ctx, m, planv, rest)
                    &&& batch == stop + rest
                }
        },
    }
}

fn clear_votes_button(state: &mut State, ctx: &CallbackContext) -> (r: RequestResult)
    requires
        old(state).wf(),
    ensures
        final(state).wf(),
        clear_votes_spec(*old(state), *final(state), *ctx, r@),
{
    let mut result = RequestResult::new();
    let msg = match &ctx.message {
        Some(m) => MessageRef { message_id: m.message_id, has_photo: m.has_photo },
        None => {
            proof {
                assert(result@ =~= Seq::<RequestKindView>::empty());
            }
            return result;
        },
    };
    let plan = match state.first_plan(ctx.chat_id) {
        Some(plan) => plan,
        None => {
            proof {
                assert(result@ =~= Seq::<RequestKindView>::empty());
            }
            return result;
        },
    };
    let ghost planv = plan@;
    proof {
        let k = choose|k: int| 0 <= k < state.plans@.len() && state.plans@[k] == planv;
        assert(state.plans@[k].vchat() == ctx.chat_id as int);
        assert(state.plans@[k].wf());
    }
    stop_plan_poll(&*state, ctx, &plan.id, &mut result);
    let ghost stopped = result@;
    let rest = send_plan_poll(state, ctx, &msg, &plan);
    let ghost restv = rest@;
    result.append(rest);
    proof {
        assert(plan_batch_parts(planv, stopped, restv));
    }
    result
}

/// A witness marker, constantly true: it claims nothing and only anchors the
/// trigger of the quantifier that binds the replaced plan, its successor and
/// the batch halves together. The real constraints stand beside it.
pub open spec fn reroll_parts(
    planv: PlanView,
    newp: PlanView,
    stop: Seq<RequestKindView>,
    rest: Seq<RequestKindView>,
) -> bool {
    true
}

/// What `RerollPlan` does: draw a fresh weighted sample over the chat's
/// meals for the same number of days, replace the stored plan with it, and
/// replace the running poll.
pub open spec fn reroll_plan_spec(
    st0: State,
    st1: State,
    ctx: CallbackContext,
    batch: Seq<RequestKindView>,
) -> bool {
    &&& st1.meals == st0.meals
    &&& st1.polls == st0.polls
    &&& st1.whitelist == st0.whitelist
    &&& st1.config == st0.config
    &&& match ctx.message {
        None => st1.plans == st0.plans && st1.keyboards == st0.keyboards && batch == Seq::<
            RequestKindView,
        >::empty(),
        Some(m) => if !(exists|i: int|
            0 <= i < st0.plans@.len() && (#[trigger] st0.plans@[i]).vchat() == ctx.chat_id as int) {
            st1.plans == st0.plans && st1.keyboards == st0.keyboards && batch == Seq::<
                RequestKindView,
            >::empty()
        } else {
            exists|planv: PlanView, newp: PlanView, stop: Seq<RequestKindView>, rest: Seq<
                RequestKindView,
            >|
                {
                    &&& #[trigger] reroll_parts(planv, newp, stop, rest)
                    &&& st0.plans@.contains(planv)
                    &&& planv.vchat() == ctx.chat_id as int
                    &&& newp.wf()
                    &&& newp.vchat() == ctx.chat_id as int
                    &&& newp.meals.len() == (if planv.days
                        <= st0.meals@.filter(crate::store::by_chat(ctx.chat_id as int)).len() {
                        planv.days
                    } else {
                        st0.meals@.filter(crate::store::by_chat(ctx.chat_id as int)).len() as int
                    })
                    &&& forall|i: int|
                        0 <= i < newp.meals.len() ==> st0.meals@.filter(
                            crate::store::by_chat(ctx.chat_id as int),
                        ).contains(#[trigger] newp.meals[i])
                    &&& exists|j: int|
                        0 <= j < st0.plans@.len() && (#[trigger] st0.plans@[j]).vid() == planv.id
                            && added(st0.plans@.remove(j), st1.plans@, newp)
                    &&& stop_plan_poll_part(st0, ctx, planv.id, stop)
                    &&& plan_poll_spec(st0, st1, ctx, m, newp, rest)
                    &&& batch == stop + rest
                }
        },
    }
}

fn reroll_plan_button(state: &mut State, ctx: &CallbackContext) -> (r: RequestResult)
    requires
        old(state).wf(),
    ensures
        final(state).wf(),
        reroll_plan_spec(*old(state), *final(state), *ctx, r@),
{
    let mut result = RequestResult::new();
    let msg = match &ctx.message {
        Some(m) => MessageRef { message_id: m.message_id, has_photo: m.has_photo },
        None => {
            proof {
                assert(result@ =~= Seq::<RequestKindView>::empty());
            }
            return result;
        },
    };
    let plan = match state.first_plan(ctx.chat_id) {
        Some(plan) => plan,
        None => {
            proof {
                assert(result@ =~= Seq::<RequestKindView>::empty());
            }
            return result;
        },
    };
    let ghost planv = plan@;
    let ghost chatf = old(state).meals@.filter(crate::store::by_chat(ctx.chat_id as int));
    proof {
        let k = choose|k: int| 0 <= k < state.plans@.len() && state.plans@[k] == planv;
        assert(state.plans@[k].vchat() == ctx.chat_id as int);
    }
    let chat_meals = state.meals.all_chat(ctx.chat_id);
    proof {
        crate::store::lemma_filter_unique(
            old(state).meals@,
            crate::store::by_chat(ctx.chat_id as int),
        );
        assert(crate::plan::meal_views(chat_meals@) =~= chatf);
        assert forall|i: int|
            0 <= i < chat_meals@.len() implies (
        #[trigger] crate::plan::meal_views(chat_meals@)[i]).wf() by {
            assert(chatf[i] == crate::plan::meal_views(chat_meals@)[i]);
            assert(old(state).meals@.contains(chatf[i]));
            let k = choose|k: int|
                0 <= k < old(state).meals@.len() && old(state).meals@[k] == chatf[i];
            assert(old(state).meals@[k].wf());
        }
    }
    let days = plan.days;
    let new_plan = Plan::gen(ctx.chat_id, chat_meals, days);
    let ghost newp = new_plan@;
    let removed = state.plans.remove(&plan.id);
    let ghost mid_plans = state.plans@;
    let dup = new_plan.duplicate();
    state.plans.add(dup);
    proof {
        assert forall|p: int| 0 <= p < state.plans@.len() implies (
        #[trigger] state.plans@[p]).wf() by {
            if has_entry(mid_plans, newp.vid()) {
                let i = choose|i: int|
                    0 <= i < mid_plans.len() && mid_plans[i].vid() == newp.vid() && state.plans@
                        == mid_plans.update(i, newp);
                if p != i {
                    assert(state.plans@[p] == mid_plans[p]);
                    assert(mid_plans[p].wf());
                }
            } else {
                if p < mid_plans.len() {
                    assert(state.plans@[p] == mid_plans[p]);
                    assert(mid_plans[p].wf());
                } else {
                    assert(state.plans@[p] == newp);
                }
            }
        }
    }
    stop_plan_poll(&*state, ctx, &plan.id, &mut result);
    let ghost stopped = result@;
    proof {
        assert forall|i: int| 0 <= i < newp.meals.len() implies chatf.contains(
            #[trigger] newp.meals[i],
        ) by {
            assert(crate::plan::meal_views(chat_meals@).contains(newp.meals[i]));
            let k = choose|k: int|
                0 <= k < crate::plan::meal_views(chat_meals@).len() && crate::plan::meal_views(
                    chat_meals@,
                )[k] == newp.meals[i];
            assert(chatf[k] == newp.meals[i]);
        }
    }
    let rest = send_plan_poll(state, ctx, &msg, &new_plan);
    let ghost restv = rest@;
    result.append(rest);
    proof {
        assert(reroll_parts(planv, newp, stopped, restv));
    }
    result
}

/// A witness marker, constantly true: it claims nothing and only anchors the
/// trigger of the quantifier that binds the two batch halves together. The
/// real constraints on both stand beside it.
pub open spec fn display_parts(
    partplan: Seq<RequestKindView>,
    partmeal: Seq<RequestKindView>,
) -> bool {
    true
}

/// What `DisplayPlanMeal` does: refresh the plan poll's button grid, and
/// send the chosen meal's card with a dismiss button under it. Each part
/// simply drops out when its subject is gone.
pub open spec fn display_plan_meal_spec(
    st0: State,
    st1: State,
    ctx: CallbackContext,
    meal_id: Seq<char>,
    plan_id: Seq<char>,
    batch: Seq<RequestKindView>,
) -> bool {
    &&& st1.meals == st0.meals
    &&& st1.plans == st0.plans
    &&& st1.polls == st0.polls
    &&& st1.whitelist == st0.whitelist
    &&& st1.config == st0.config
    &&& match ctx.message {
        None => st1.keyboards == st0.keyboards && batch == Seq::<RequestKindView>::empty(),
        Some(m) => exists|partplan: Seq<RequestKindView>, partmeal: Seq<RequestKindView>|
            {
                &&& #[trigger] display_parts(partplan, partmeal)
                &&& batch == partplan + partmeal
                &&& if has_entry(st0.plans@, plan_id) {
                    exists|kb1: KeyboardView|
                        {
                            &&& #[trigger] is_plan_poll_grid(
                                kb1.buttons,
                                entry_of(st0.plans@, plan_id),
                            )
                            &&& kb1.chat_id == ctx.chat_id as int
                            &&& has_entry(st1.keyboards@, kb1.id)
                            &&& partplan == seq![
                                RequestKindView::EditReplyMarkup {
                                    chat_id: ctx.chat_id as int,
                                    message_id: m.message_id as int,
                                    keyboard: Some(kb1),
                                },
                            ]
                        }
                } else {
                    partplan == Seq::<RequestKindView>::empty()
                }
                &&& if has_entry(st0.meals@, meal_id) {
                    exists|kb2: KeyboardView|
                        {
                            &&& kb2.buttons.len() == 1
                            &&& (#[trigger] kb2.buttons[0]).len() == 1
                            &&& kb2.buttons[0][0].kind == ButtonKindView::DeleteMessage
                            &&& kb2.chat_id == ctx.chat_id as int
                            &&& has_entry(st1.keyboards@, kb2.id)
                            &&& partmeal == seq![
                                RequestKindView::Message {
                                    chat_id: ctx.chat_id as int,
                                    text: (MsgTextView::MealOnly {
                                        meal: entry_of(st0.meals@, meal_id),
                                    }),
                                    keyboard: Some(kb2),
                                    notify: false,
                                },
                            ]
                        }
                } else {
                    partmeal == Seq::<RequestKindView>::empty()
                }
            },
    }
}

fn display_plan_meal_button(
    state: &mut State,
    ctx: &CallbackContext,
    meal_id: &String,
    plan_id: &String,
) -> (r: RequestResult)
    requires
        old(state).wf(),
    ensures
        final(state).wf(),
        display_plan_meal_spec(*old(state), *final(state), *ctx, meal_id@, plan_id@, r@),
{
    let mut result = RequestResult::new();
    let msg = match &ctx.message {
        Some(m) => MessageRef { message_id: m.message_id, has_photo: m.has_photo },
        None => {
            proof {
                assert(result@ =~= Seq::<RequestKindView>::empty());
            }
            return result;
        },
    };
    let ghost mut g_kb1: Option<KeyboardView> = None;
    let ghost mut g_kb2: Option<KeyboardView> = None;
    match state.plans.get(plan_id) {
        Some(plan) => {
            let ghost planv = plan@;
            proof {
                assert(old(state).plans@.contains(planv));
                let k = choose|k: int|
                    0 <= k < old(state).plans@.len() && old(state).plans@[k] == planv;
                lemma_entry_of(old(state).plans@, plan_id@, k);
                assert(planv.wf());
            }
            let grid_buttons = poll_plan_buttons(&plan);
            let ghost grid = rows_views(grid_buttons@);
            let keyboard = Keyboard::new(ctx.chat_id).buttons(grid_buttons);
            let ghost kbv = keyboard@;
            proof {
                lemma_stamp_grid(grid, kbv.id);
                assert(is_control_row(kbv.buttons[kbv.buttons.len() - 1], planv.id)) by {
                    let last = grid.len() - 1;
                    assert(kbv.buttons[last].len() == grid[last].len());
                    assert(kbv.buttons[last][0].kind == grid[last][0].kind);
                    assert(kbv.buttons[last][1].kind == grid[last][1].kind);
                    assert(kbv.buttons[last][2].kind == grid[last][2].kind);
                    assert(kbv.buttons[last][0].text == grid[last][0].text);
                    assert(kbv.buttons[last][1].text == grid[last][1].text);
                    assert(kbv.buttons[last][2].text == grid[last][2].text);
                }
                assert(is_plan_info_rows(kbv.buttons.take(kbv.buttons.len() - 1), planv)) by {
                    let pre = kbv.buttons.take(kbv.buttons.len() - 1);
                    let gpre = grid.take(grid.len() - 1);

                    assert(pre.len() == gpre.len());
                    assert forall|pi: int| 0 <= pi < pre.len() implies #[trigger] pre[pi].len() == gpre[pi].len() by {
                        assert(pre[pi] == kbv.buttons[pi]);
                        assert(kbv.buttons[pi].len() == grid[pi].len());
                        assert(gpre[pi] == grid[pi]);
                    }
                    assert forall|i: int, j: int|
                        0 <= i < pre.len() && 0 <= j < pre[i].len() implies {
                        &&& 0 <= 4 * i + j < planv.meals.len()
                        &&& ((#[trigger] pre[i][j]).kind
                            matches ButtonKindView::DisplayPlanMeal { meal_id, plan_id } && meal_id
                            == planv.meals[4 * i + j].id && plan_id == planv.id)
                        &&& pre[i][j].text == planv.meals[4 * i + j].name
                    } by {
                        assert(pre[i] == kbv.buttons[i]);
                        assert(kbv.buttons[i].len() == grid[i].len());
                        assert(pre[i][j].kind == grid[i][j].kind);
                        assert(pre[i][j].text == grid[i][j].text);
                        assert(gpre[i][j] == grid[i][j]);
                    }
                }
                assert(is_plan_poll_grid(kbv.buttons, planv));
                assert forall|i: int, j: int|
                    0 <= i < grid.len() && 0 <= j < grid[i].len() implies id_wf(
                    (#[trigger] grid[i][j]).id,
                ) && grid[i][j].kind.wf() by {}
                lemma_built_keyboard_wf(kbv, grid);
                assert(kbv.buttons[grid.len() - 1].len() == 3);
                assert(kbv.has_buttons());
            }
            let keyboard = keyboard.save(state);
            result.add(
                RequestKind::EditReplyMarkup {
                    chat_id: ctx.chat_id,
                    message_id: msg.message_id,
                    keyboard: Some(keyboard),
                },
            );
            proof {
                g_kb1 = Some(kbv);
                assert(result@ =~= seq![
                    RequestKindView::EditReplyMarkup {
                        chat_id: ctx.chat_id as int,
                        message_id: msg.message_id as int,
                        keyboard: Some(kbv),
                    },
                ]);
            }
        },
        None => {
            proof {
                assert(result@ =~= Seq::<RequestKindView>::empty());
            }
        },
    }
    let ghost mid = *state;
    let ghost partplan = result@;
    match state.meals.get(meal_id) {
        Some(meal) => {
            let ghost mv = meal@;
            proof {
                assert(old(state).meals@.contains(mv));
                let k = choose|k: int|
                    0 <= k < old(state).meals@.len() && old(state).meals@[k] == mv;
                lemma_entry_of(old(state).meals@, meal_id@, k);
            }
            let back_button = Button::new(String::from_str("Back"), ButtonKind::DeleteMessage);
            let ghost backv = back_button@;
            let mut row: Vec<Button> = Vec::new();
            let ghost er = row@;
            row.push(back_button);
            proof {
                crate::button::lemma_row_views_push(er, row@.last());
                assert(row@ =~= er.push(row@.last()));
            }
            let ghost rv = row_views(row@);
            let mut rows: Vec<Vec<Button>> = Vec::new();
            let ghost eg = rows@;
            rows.push(row);
            proof {
                lemma_rows_views_push(eg, rows@.last());
                assert(rows@ =~= eg.push(rows@.last()));
            }
            let ghost grid = rows_views(rows@);
            proof {
                assert(grid =~= seq![rv]);
                assert(rv =~= seq![backv]);
            }
            let keyboard = Keyboard::new(ctx.chat_id).buttons(rows);
            let ghost kb2 = keyboard@;
            proof {
                lemma_stamp_grid(grid, kb2.id);
                assert(kb2.buttons[0].len() == 1);
                assert(kb2.buttons[0][0].kind == backv.kind);
                assert forall|i: int, j: int|
                    0 <= i < grid.len() && 0 <= j < grid[i].len() implies id_wf(
                    (#[trigger] grid[i][j]).id,
                ) && grid[i][j].kind.wf() by {
                    assert(grid[i][j] == backv);
                }
                lemma_built_keyboard_wf(kb2, grid);
                assert(kb2.has_buttons());
            }
            let keyboard = keyboard.save(state);
            proof {
                assert forall|idq: Seq<char>|
                    has_entry(mid.keyboards@, idq) implies has_entry(
                    state.keyboards@,
                    idq,
                ) by {
                    crate::store::lemma_added_preserves(mid.keyboards@, state.keyboards@, kb2, idq);
                }
            }
            result.add(
                RequestKind::Message {
                    chat_id: ctx.chat_id,
                    text: MsgText::MealOnly { meal },
                    keyboard: Some(keyboard),
                    notify: false,
                },
            );
            proof {
                g_kb2 = Some(kb2);
                assert(has_entry(state.keyboards@, kb2.id));
                assert(result@ =~= partplan + seq![
                    RequestKindView::Message {
                        chat_id: ctx.chat_id as int,
                        text: (MsgTextView::MealOnly { meal: mv }),
                        keyboard: Some(kb2),
                        notify: false,
                    },
                ]);
            }
        },
        None => {
            proof {
                assert(result@ =~= partplan + Seq::<RequestKindView>::empty());
            }
        },
    }
    proof {
        let st0 = *old(state);
        let st1 = *state;
        let partmeal = result@.skip(partplan.len() as int);
        assert(result@ =~= partplan + partmeal);
        if has_entry(st0.plans@, plan_id@) {
            let kb1 = g_kb1->Some_0;
            assert(is_plan_poll_grid(kb1.buttons, entry_of(st0.plans@, plan_id@)));
            assert(kb1.chat_id == ctx.chat_id as int);
            assert(has_entry(st1.keyboards@, kb1.id));
            assert(partplan == seq![
                RequestKindView::EditReplyMarkup {
                    chat_id: ctx.chat_id as int,
                    message_id: msg.message_id as int,
                    keyboard: Some(kb1),
                },
            ]);
        } else {
            assert(partplan =~= Seq::<RequestKindView>::empty());
        }
        if has_entry(st0.meals@, meal_id@) {
            let kb2 = g_kb2->Some_0;
            assert(kb2.buttons.len() == 1 && kb2.buttons[0].len() == 1);
            assert(kb2.buttons[0][0].kind == ButtonKindView::DeleteMessage);
            assert(kb2.chat_id == ctx.chat_id as int);
            assert(has_entry(st1.keyboards@, kb2.id));
            assert(partmeal =~= seq![
                RequestKindView::Message {
                    chat_id: ctx.chat_id as int,
                    text: (MsgTextView::MealOnly { meal: entry_of(st0.meals@, meal_id@) }),
                    keyboard: Some(kb2),
                    notify: false,
                },
            ]);
        } else {
            assert(partmeal =~= Seq::<RequestKindView>::empty());
        }
        assert(display_parts(partplan, partmeal));
    }
    result
}

/// What one button dispatch does, variant by variant: the exact state change
/// and batch of each logical action.
pub open spec fn button_outcome(
    st0: State,
    st1: State,
    ctx: CallbackContext,
    kind: ButtonKindView,
    batch: Seq<RequestKindView>,
) -> bool {
    match kind {
        ButtonKindView::SaveMeal { meal_id } => save_meal_spec(st0, st1, ctx, meal_id, batch),
        ButtonKindView::DeleteMeal { meal_id } => delete_meal_spec(st0, st1, ctx, meal_id, batch),
        ButtonKindView::RemoveMeal { meal_id } => remove_meal_spec(st0, st1, ctx, meal_id, batch),
        ButtonKindView::RateMeal { meal_id, rating } => rate_meal_spec(
            st0,
            st1,
            ctx,
            meal_id,
            rating,
            batch,
        ),
        ButtonKindView::DeleteMessage => st1 == st0 && batch == delete_batch(ctx),
        ButtonKindView::PinMessage => st1 == st0 && batch == (match ctx.message {
            Some(m) => seq![
                RequestKindView::Pin {
                    chat_id: ctx.chat_id as int,
                    message_id: m.message_id as int,
                },
            ],
            None => Seq::<RequestKindView>::empty(),
        }),
        ButtonKindView::SavePollRating { poll_id, .. } => st1 == st0 && save_poll_rating_spec(
            st0,
            ctx,
            poll_id,
            batch,
        ),
        ButtonKindView::CancelPollRating { poll_id } => cancel_poll_rating_spec(
            st0,
            st1,
            poll_id,
            batch,
        ),
        ButtonKindView::PollRating { meal_id } => poll_rating_spec(st0, st1, ctx, meal_id, batch),
        ButtonKindView::DisplayListMeal { meal_id } => display_list_meal_spec(
            st0,
            st1,
            ctx,
            meal_id,
            batch,
        ),
        ButtonKindView::ShowList => show_list_spec(st0, st1, ctx, batch),
        ButtonKindView::ShowPlan => show_plan_spec(st0, st1, ctx, batch),
        ButtonKindView::RemovePlanPoll { plan_id } => st1 == st0 && remove_plan_poll_spec(
            st0,
            ctx,
            plan_id,
            batch,
        ),
        ButtonKindView::RerollPlan => reroll_plan_spec(st0, st1, ctx, batch),
        ButtonKindView::ClearVotes => clear_votes_spec(st0, st1, ctx, batch),
        ButtonKindView::DisplayPlanMeal { meal_id, plan_id } => display_plan_meal_spec(
            st0,
            st1,
            ctx,
            meal_id,
            plan_id,
            batch,
        ),
        ButtonKindView::CommandButton { command } => match ctx.message {
            None => st1 == st0 && batch == Seq::<RequestKindView>::empty(),
            Some(m) => crate::command::op_applied(st0, st1, command)
                && crate::command::command_outcome(
                st0,
                st1,
                (crate::command::MessageContext {
                    chat_id: ctx.chat_id,
                    message_id: m.message_id,
                    username: ctx.username,
                    user_id: ctx.user_id,
                }),
                command,
                batch,
            ),
        },
    }
}

impl ButtonKind {
    /// Replays the clicked button's logical action against the shared state:
    /// the dispatcher over the closed action set. Every variant reads the
    /// state it needs by id, performs at most one mutation, and appends its
    /// outbound effects to the returned batch.
    pub fn run(button: &ButtonKind, state: &mut State, ctx: &CallbackContext) -> (r: RequestResult)
        requires
            old(state).wf(),
            button@.wf(),
        ensures
            final(state).wf(),
            button_outcome(*old(state), *final(state), *ctx, button@, r@),
    {
        match button {
            ButtonKind::SaveMeal { meal_id } => save_meal_button(state, ctx, meal_id),
            ButtonKind::DeleteMeal { meal_id } => delete_meal_button(state, ctx, meal_id),
            ButtonKind::RemoveMeal { meal_id } => remove_meal_button(state, ctx, meal_id),
            ButtonKind::RateMeal { meal_id, rating } => rate_meal_button(
                state,
                ctx,
                meal_id,
                *rating,
            ),
            ButtonKind::DeleteMessage => delete_message_button(ctx),
            ButtonKind::PinMessage => pin_message_button(ctx),
            ButtonKind::SavePollRating { poll_id, .. } => save_poll_rating_button(
                &*state,
                ctx,
                poll_id,
            ),
            ButtonKind::CancelPollRating { poll_id } => cancel_poll_rating_button(state, poll_id),
            ButtonKind::PollRating { meal_id } => poll_rating_button(state, ctx, meal_id),
            ButtonKind::DisplayListMeal { meal_id } => display_list_meal_button(
                state,
                ctx,
                meal_id,
            ),
            ButtonKind::ShowList => show_list_button(state, ctx),
            ButtonKind::ShowPlan => show_plan_button(state, ctx),
            ButtonKind::RemovePlanPoll { plan_id } => remove_plan_poll_button(
                &*state,
                ctx,
                plan_id,
            ),
            ButtonKind::RerollPlan => reroll_plan_button(state, ctx),
            ButtonKind::ClearVotes => clear_votes_button(state, ctx),
            ButtonKind::DisplayPlanMeal { meal_id, plan_id } => display_plan_meal_button(
                state,
                ctx,
                meal_id,
                plan_id,
            ),
            ButtonKind::CommandButton { command } => {
                match &ctx.message {
                    Some(m) => {
                        let mctx = crate::command::MessageContext {
                            chat_id: ctx.chat_id,
                            message_id: m.message_id,
                            username: crate::text::clone_opt_string(&ctx.username),
                            user_id: ctx.user_id,
                        };
                        let out = command.execute(state, &mctx);
                        proof {
                            assert(mctx.username == ctx.username);
                        }
                        out
                    },
                    None => RequestResult::new(),
                }
            },
        }
    }

    /// Replays this button's action; see [`ButtonKind::run`].
    pub fn execute(&self, state: &mut State, ctx: &CallbackContext) -> (r: RequestResult)
        requires
            old(state).wf(),
            self@.wf(),
        ensures
            final(state).wf(),
            button_outcome(*old(state), *final(state), *ctx, self@, r@),
    {
        ButtonKind::run(self, state, ctx)
    }
}

} // verus!
