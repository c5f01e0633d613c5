use vstd::prelude::*;
use crate::button::{rate_meal_button_row, row_views, rows_views, save_meal_button_row, Button, ButtonKind, ButtonKindView};
use crate::dispatch::{
    is_list_grid, is_plan_poll_grid, is_rate_row, is_save_row, keyboard_registered, meal_buttons,
    plan_poll_pair, poll_plan_buttons,
};
use crate::ident::id_wf;
use crate::keyboard::{lemma_built_keyboard_wf, stamp_rows, Keyboard, KeyboardView};
use crate::meal::{Meal, MealView};
use crate::plan::{answers_of, meal_views, Plan, PlanView};
use crate::poll::{Poll, PollBuildView, PollKind, PollKindView};
use crate::request::{MsgText, MsgTextView, Note, RequestKind, RequestKindView, RequestResult};
use crate::state::{name_matches, State};
use crate::store::{added, entry_of, has_entry, lemma_entry_of, lemma_entry_unique, EntryView, HasId};
use crate::text::{clone_opt_string, clone_string_vec, upper_of};

verus! {

/// The model of a [`Command`].
pub enum CommandView {
    Help,
    NewMeal(Seq<char>),
    New { meal_name: Seq<char>, rating: Option<u8>, tags: Option<Seq<Seq<char>>>, url: Option<Seq<char>> },
    Plan(Option<int>),
    Get(Seq<char>),
    Remove(Seq<char>),
    List,
    Op(Seq<char>, Seq<char>),
    Rename(Seq<char>, Seq<char>),
    Rate(Seq<char>, u8),
    Tag(Seq<char>, Seq<Seq<char>>),
    TagRemove(Seq<char>, Seq<Seq<char>>),
    Ref(Seq<char>, Seq<char>),
    Version,
}

/// A fully parsed chat command, as the command parser hands it over. The
/// engine never parses text itself.
pub enum Command {
    Help,
    NewMeal(String),
    New { meal_name: String, rating: Option<u8>, tags: Option<Vec<String>>, url: Option<String> },
    Plan(Option<usize>),
    Get(String),
    Remove(String),
    List,
    Op(String, String),
    Rename(String, String),
    Rate(String, u8),
    Tag(String, Vec<String>),
    TagRemove(String, Vec<String>),
    Ref(String, String),
    Version,
}

impl View for Command {
    type V = CommandView;

    open spec fn view(&self) -> CommandView {
        match self {
            Command::Help => CommandView::Help,
            Command::NewMeal(name) => CommandView::NewMeal(name@),
            Command::New { meal_name, rating, tags, url } => CommandView::New {
                meal_name: meal_name@,
                rating: *rating,
                tags: match tags {
                    Some(t) => Some(t.deep_view()),
                    None => None,
                },
                url: match url {
                    Some(u) => Some(u@),
                    None => None,
                },
            },
            Command::Plan(days) => CommandView::Plan(
                match days {
                    Some(d) => Some(*d as int),
                    None => None,
                },
            ),
            Command::Get(name) => CommandView::Get(name@),
            Command::Remove(name) => CommandView::Remove(name@),
            Command::List => CommandView::List,
            Command::Op(user, password) => CommandView::Op(user@, password@),
            Command::Rename(name, to) => CommandView::Rename(name@, to@),
            Command::Rate(name, rating) => CommandView::Rate(name@, *rating),
            Command::Tag(name, tags) => CommandView::Tag(name@, tags.deep_view()),
            Command::TagRemove(name, tags) => CommandView::TagRemove(name@, tags.deep_view()),
            Command::Ref(name, to) => CommandView::Ref(name@, to@),
            Command::Version => CommandView::Version,
        }
    }
}

impl Command {
    /// An exact copy of the command.
    pub fn duplicate(&self) -> (r: Self)
        ensures
            r@ == self@,
    {
        match self {
            Command::Help => Command::Help,
            Command::NewMeal(name) => Command::NewMeal(name.clone()),
            Command::New { meal_name, rating, tags, url } => Command::New {
                meal_name: meal_name.clone(),
                rating: *rating,
                tags: match tags {
                    Some(t) => Some(clone_string_vec(t)),
                    None => None,
                },
                url: clone_opt_string(url),
            },
            Command::Plan(days) => Command::Plan(*days),
            Command::Get(name) => Command::Get(name.clone()),
            Command::Remove(name) => Command::Remove(name.clone()),
            Command::List => Command::List,
            Command::Op(user, password) => Command::Op(user.clone(), password.clone()),
            Command::Rename(name, to) => Command::Rename(name.clone(), to.clone()),
            Command::Rate(name, rating) => Command::Rate(name.clone(), *rating),
            Command::Tag(name, tags) => Command::Tag(name.clone(), clone_string_vec(tags)),
            Command::TagRemove(name, tags) => Command::TagRemove(
                name.clone(),
                clone_string_vec(tags),
            ),
            Command::Ref(name, to) => Command::Ref(name.clone(), to.clone()),
            Command::Version => Command::Version,
        }
    }
}

/// The message a command arrived in: who sent it, where, as plain values.
pub struct MessageContext {
    pub chat_id: i64,
    pub message_id: i32,
    pub username: Option<String>,
    pub user_id: i32,
}

/// One in-place edit of a meal, as a replayable value.
pub enum MealEditView {
    Rename(Seq<char>),
    Rate(Option<u8>),
    AddTags(Seq<Seq<char>>),
    RemoveTags(Seq<Seq<char>>),
    Url(Option<Seq<char>>),
    AddPhoto(Seq<char>),
}

/// One in-place edit of a meal.
pub enum MealEdit {
    Rename(String),
    Rate(Option<u8>),
    AddTags(Vec<String>),
    RemoveTags(Vec<String>),
    Url(Option<String>),
    AddPhoto(String),
}

impl View for MealEdit {
    type V = MealEditView;

    open spec fn view(&self) -> MealEditView {
        match self {
            MealEdit::Rename(n) => MealEditView::Rename(n@),
            MealEdit::Rate(r) => MealEditView::Rate(*r),
            MealEdit::AddTags(t) => MealEditView::AddTags(t.deep_view()),
            MealEdit::RemoveTags(t) => MealEditView::RemoveTags(t.deep_view()),
            MealEdit::Url(u) => MealEditView::Url(
                match u {
                    Some(x) => Some(x@),
                    None => None,
                },
            ),
            MealEdit::AddPhoto(p) => MealEditView::AddPhoto(p@),
        }
    }
}

impl MealEditView {
    /// An edit never stores an unlawful rating.
    pub open spec fn wf(&self) -> bool {
        *self matches MealEditView::Rate(Some(r)) ==> crate::rating_in_range(r)
    }
}

/// The meal after one edit.
pub open spec fn apply_edit(m: MealView, e: MealEditView) -> MealView {
    match e {
        MealEditView::Rename(n) => MealView { name: n, ..m },
        MealEditView::Rate(r) => MealView { rating: r, ..m },
        MealEditView::AddTags(t) => MealView { tags: m.tags + t, ..m },
        MealEditView::RemoveTags(t) => MealView {
            tags: m.tags.filter(|x: Seq<char>| !t.contains(x)),
            ..m
        },
        MealEditView::Url(u) => MealView { url: u, ..m },
        MealEditView::AddPhoto(p) => MealView { photos: m.photos.push(p), ..m },
    }
}

/// Applies `edit` to `meal` in place.
fn apply_edit_exec(meal: &mut Meal, edit: &MealEdit)
    requires
        edit@.wf(),
    ensures
        final(meal)@ == apply_edit(old(meal)@, edit@),
{
    match edit {
        MealEdit::Rename(n) => {
            meal.rename(n.clone());
        },
        MealEdit::Rate(r) => {
            meal.rate(*r);
        },
        MealEdit::AddTags(t) => {
            meal.tag(Some(crate::text::clone_string_vec(t)));
        },
        MealEdit::RemoveTags(t) => {
            let ghost tv = t.deep_view();
            let ghost m0tags = old(meal)@.tags;
            let n = meal.tags.len();
            let mut kept: Vec<String> = Vec::new();
            let mut i: usize = 0;
            proof {
                assert(kept.deep_view() =~= m0tags.take(0).filter(
                    |x: Seq<char>| !tv.contains(x),
                ));
            }
            while i < n
                invariant
                    0 <= i <= n,
                    n == meal.tags@.len(),
                    meal@ == old(meal)@,
                    tv == t.deep_view(),
                    m0tags == old(meal)@.tags,
                    kept.deep_view() == m0tags.take(i as int).filter(
                        |x: Seq<char>| !tv.contains(x),
                    ),
                decreases n - i,
            {
                proof {
                    reveal(Seq::filter);
                    assert(m0tags.take(i as int + 1).drop_last() =~= m0tags.take(i as int));
                    assert(m0tags.take(i as int + 1).last() == m0tags[i as int]);
                }
                let tag = meal.tags[i].clone();
                let ghost tagv = tag@;
                proof {
                    assert(tagv == m0tags[i as int]);
                }
                if !contains_string(t, &tag) {
                    let ghost prevv = kept@;
                    kept.push(tag);
                    proof {
                        crate::text::lemma_str_views_push(prevv, kept@.last());
                        assert(kept@ =~= prevv.push(kept@.last()));
                        crate::text::lemma_deep_is_str_views(kept);
                        assert(kept.deep_view() =~= m0tags.take(i as int + 1).filter(
                            |x: Seq<char>| !tv.contains(x),
                        ));
                    }
                } else {
                    proof {
                        crate::text::lemma_deep_is_str_views(kept);
                        assert(kept.deep_view() =~= m0tags.take(i as int + 1).filter(
                            |x: Seq<char>| !tv.contains(x),
                        ));
                    }
                }
                i = i + 1;
            }
            proof {
                assert(m0tags.take(n as int) =~= m0tags);
            }
            meal.set_tags(kept);
        },
        MealEdit::Url(u) => {
            meal.url(crate::text::clone_opt_string(u));
        },
        MealEdit::AddPhoto(p) => {
            meal.photo(p.clone());
        },
    }
}

/// Whether some string of `haystack` has exactly the characters of `needle`.
fn contains_string(haystack: &Vec<String>, needle: &String) -> (r: bool)
    ensures
        r == haystack.deep_view().contains(needle@),
{
    let n = haystack.len();
    let mut i: usize = 0;
    while i < n
        invariant
            0 <= i <= n,
            n == haystack@.len(),
            forall|j: int| 0 <= j < i ==> haystack.deep_view()[j] != needle@,
        decreases n - i,
    {
        if haystack[i] == *needle {
            proof {
                assert(haystack.deep_view()[i as int] == needle@);
            }
            return true;
        }
        i = i + 1;
    }
    proof {
        assert forall|j: int|
            0 <= j < haystack.deep_view().len() implies haystack.deep_view()[j] != needle@ by {}
    }
    false
}

/// What an edit command does to the catalogue: every meal of the chat whose
/// name matches (case folded) carries the edit; every other meal stays put,
/// found under its unchanged id.
pub open spec fn meals_edited(
    s0: Seq<MealView>,
    s1: Seq<MealView>,
    chat: int,
    uname: Seq<char>,
    e: MealEditView,
) -> bool {
    &&& s1.len() == s0.len()
    &&& forall|j: int|
        0 <= j < s0.len() ==> {
            &&& has_entry(s1, (#[trigger] s0[j]).vid())
            &&& entry_of(s1, s0[j].vid()) == (if name_matches(chat, uname)(s0[j]) {
                apply_edit(s0[j], e)
            } else {
                s0[j]
            })
        }
}

/// Edits every meal of the chat with a matching name, and reports one message
/// per edited meal, showing the meal as it was before the edit.
fn edit_meals_by_name(
    state: &mut State,
    chat_id: i64,
    message_id: i32,
    name: &String,
    edit: &MealEdit,
    note: Note,
    result: &mut RequestResult,
)
    requires
        old(state).wf(),
        edit@.wf(),
    ensures
        final(state).wf(),
        final(state).plans == old(state).plans,
        final(state).polls == old(state).polls,
        final(state).keyboards == old(state).keyboards,
        final(state).whitelist == old(state).whitelist,
        final(state).config == old(state).config,
        meals_edited(
            old(state).meals@,
            final(state).meals@,
            chat_id as int,
            upper_of(name@),
            edit@,
        ),
        ({
            let found = old(state).meals@.filter(name_matches(chat_id as int, upper_of(name@)));
            final(result)@ == old(result)@ + (if found.len() == 0 {
                seq![
                    RequestKindView::Message {
                        chat_id: chat_id as int,
                        text: (MsgTextView::Plain { note: Note::NoMealWithName }),
                        keyboard: None,
                        notify: false,
                    },
                ]
            } else {
                Seq::new(
                    found.len(),
                    |k: int| RequestKindView::Message {
                        chat_id: chat_id as int,
                        text: (MsgTextView::MealWith { meal: found[k], note }),
                        keyboard: None,
                        notify: false,
                    },
                )
            })
        }),
{
    let ghost s0 = old(state).meals@;
    let ghost pred = name_matches(chat_id as int, upper_of(name@));
    let ghost found = s0.filter(pred);
    let matches = state.meals_by_name(chat_id, name);
    let n = matches.len();
    proof {
        crate::store::lemma_filter_unique(s0, pred);
    }
    if n == 0 {
        result.message(
            chat_id,
            MsgText::Plain { note: Note::NoMealWithName },
            None,
        );
        proof {
            assert(final(result)@ =~= old(result)@ + seq![
                RequestKindView::Message {
                    chat_id: chat_id as int,
                    text: (MsgTextView::Plain { note: Note::NoMealWithName }),
                    keyboard: None,
                    notify: false,
                },
            ]);
            assert(meals_edited(s0, state.meals@, chat_id as int, upper_of(name@), edit@)) by {
                assert forall|j: int| 0 <= j < s0.len() implies {
                    &&& has_entry(state.meals@, (#[trigger] s0[j]).vid())
                    &&& entry_of(state.meals@, s0[j].vid()) == (if pred(s0[j]) {
                        apply_edit(s0[j], edit@)
                    } else {
                        s0[j]
                    })
                } by {
                    lemma_entry_of(s0, s0[j].vid(), j);
                    if pred(s0[j]) {
                        s0.lemma_filter_contains(pred, j);
                    }
                }
            }
        }
        return ;
    }
    let ghost batch0 = result@;
    let mut i: usize = 0;
    while i < n
        invariant
            0 <= i <= n,
            n == found.len(),
            crate::store::views_of(matches@) == found,
            n == matches@.len(),
            state.wf(),
            state.plans == old(state).plans,
            state.polls == old(state).polls,
            state.keyboards == old(state).keyboards,
            state.whitelist == old(state).whitelist,
            state.config == old(state).config,
            pred == name_matches(chat_id as int, upper_of(name@)),
            found == s0.filter(pred),
            edit@.wf(),
            s0 == old(state).meals@,
            old(state).wf(),
            state.meals@.len() == s0.len(),
            forall|j: int|
                0 <= j < s0.len() ==> {
                    &&& has_entry(state.meals@, (#[trigger] s0[j]).vid())
                    &&& entry_of(state.meals@, s0[j].vid()) == (if pred(s0[j]) && (exists|k: int|
                        0 <= k < i && (#[trigger] found[k]).vid() == s0[j].vid()) {
                        apply_edit(s0[j], edit@)
                    } else {
                        s0[j]
                    })
                },
            result@ == batch0 + Seq::new(
                i as nat,
                |k: int| RequestKindView::Message {
                    chat_id: chat_id as int,
                    text: (MsgTextView::MealWith { meal: found[k], note }),
                    keyboard: None,
                    notify: false,
                },
            ),
        decreases n - i,
    {
        let target = &matches[i];
        let ghost fv = found[i as int];
        proof {
            assert(matches@[i as int]@ == found[i as int]);
        }
        match state.meals.get(&target.id) {
            Some(mut meal) => {
                let ghost cur = state.meals@;
                let ghost mv0 = meal@;
                apply_edit_exec(&mut meal, edit);
                let dup = meal.duplicate();
                state.meals.add(dup);
                proof {
                    crate::store::lemma_filter_unique(s0, pred);
                    assert(cur.contains(mv0) && mv0.vid() == fv.vid());
                    let kk = choose|kk: int| 0 <= kk < cur.len() && cur[kk] == mv0;
                    assert(has_entry(cur, meal@.vid()));
                    let ii = choose|ii: int|
                        0 <= ii < cur.len() && cur[ii].vid() == meal@.vid() && state.meals@
                            == cur.update(ii, meal@);
                    assert(cur.contains(cur[ii]));
                    lemma_entry_unique(cur, cur[ii], mv0);
                    assert(cur[ii] == mv0);
                    // the edited meal is well-formed
                    let cc = choose|cc: int| 0 <= cc < cur.len() && cur[cc] == mv0;
                    assert(cur[cc].wf());
                    assert(meal@.wf());
                    assert forall|p: int| 0 <= p < state.meals@.len() implies (
                    #[trigger] state.meals@[p]).wf() by {
                        if p != ii {
                            assert(state.meals@[p] == cur[p]);
                        }
                    }
                    // every catalogued id still resolves, edited exactly when
                    // its name matched and its turn has come
                    assert(s0.contains(fv));
                    assert(mv0.vid() == fv.vid());
                    assert forall|j: int| 0 <= j < s0.len() implies {
                        &&& has_entry(state.meals@, (#[trigger] s0[j]).vid())
                        &&& entry_of(state.meals@, s0[j].vid()) == (if pred(s0[j]) && (exists|k: int|
                            0 <= k < i + 1 && (#[trigger] found[k]).vid() == s0[j].vid()) {
                            apply_edit(s0[j], edit@)
                        } else {
                            s0[j]
                        })
                    } by {
                        let id = s0[j].vid();
                        if id == fv.vid() {
                            assert(s0.contains(s0[j]));
                            lemma_entry_unique(s0, s0[j], fv);
                            assert(s0[j] == fv);
                            assert(pred(s0[j])) by {
                                s0.lemma_filter_pred(pred, i as int);
                            }
                            assert forall|k: int| 0 <= k < i implies (#[trigger] found[k]).vid()
                                != id by {
                                assert(found[k].vid() != found[i as int].vid());
                            }
                            assert(entry_of(cur, id) == s0[j]);
                            let cc2 = choose|cc2: int| 0 <= cc2 < cur.len() && cur[cc2] == mv0;
                            lemma_entry_of(cur, id, cc2);
                            assert(mv0 == s0[j]);
                            lemma_entry_of(state.meals@, id, ii);
                            assert(entry_of(state.meals@, id) == meal@);
                            assert(found[i as int].vid() == id);
                        } else {
                            let kj = choose|kj: int| 0 <= kj < cur.len() && cur[kj].vid() == id;
                            assert(kj != ii);
                            assert(state.meals@[kj] == cur[kj]);
                            lemma_entry_of(state.meals@, id, kj);
                            lemma_entry_of(cur, id, kj);
                            assert forall|k: int|
                                0 <= k < i + 1 && (#[trigger] found[k]).vid() == id implies k
                                < i by {
                                assert(found[i as int].vid() == fv.vid());
                            }
                        }
                    }
                }
                result.message(
                    chat_id,
                    MsgText::MealWith { meal: meal_from_view(target), note },
                    None,
                );
                proof {
                    assert(result@ =~= batch0 + Seq::new(
                        (i + 1) as nat,
                        |k: int| RequestKindView::Message {
                            chat_id: chat_id as int,
                            text: (MsgTextView::MealWith { meal: found[k], note }),
                            keyboard: None,
                            notify: false,
                        },
                    ));
                }
            },
            None => {
                proof {
                    crate::store::lemma_filter_unique(s0, pred);
                    assert(s0.contains(fv));
                    let jj = choose|jj: int| 0 <= jj < s0.len() && s0[jj] == fv;
                    assert(has_entry(state.meals@, s0[jj].vid()));
                    assert(false);
                }
            },
        }
        i = i + 1;
    }
    proof {
        crate::store::lemma_filter_unique(s0, pred);
        assert(meals_edited(s0, state.meals@, chat_id as int, upper_of(name@), edit@)) by {
            assert forall|j: int| 0 <= j < s0.len() implies {
                &&& has_entry(state.meals@, (#[trigger] s0[j]).vid())
                &&& entry_of(state.meals@, s0[j].vid()) == (if pred(s0[j]) {
                    apply_edit(s0[j], edit@)
                } else {
                    s0[j]
                })
            } by {
                if pred(s0[j]) {
                    s0.lemma_filter_contains(pred, j);
                    let k = choose|k: int| 0 <= k < found.len() && found[k] == s0[j];
                }
            }
        }
    }
}

/// A meal card for the batch, copied from the matched entry.
fn meal_from_view(meal: &Meal) -> (r: Meal)
    ensures
        r@ == meal@,
{
    meal.duplicate()
}

/// What a removal command does to the catalogue: no meal of the chat with a
/// matching name survives, and every other meal stays put under its id.
pub open spec fn meals_removed(
    s0: Seq<MealView>,
    s1: Seq<MealView>,
    chat: int,
    uname: Seq<char>,
) -> bool {
    &&& forall|j: int|
        0 <= j < s1.len() ==> s0.contains(#[trigger] s1[j]) && !(name_matches(chat, uname)(s1[j]))
    &&& forall|j: int|
        0 <= j < s0.len() && !(name_matches(chat, uname)(#[trigger] s0[j])) ==> has_entry(
            s1,
            s0[j].vid(),
        ) && entry_of(s1, s0[j].vid()) == s0[j]
}

/// Removes every meal of the chat with a matching name, reporting each one.
fn remove_meals_by_name(
    state: &mut State,
    chat_id: i64,
    name: &String,
    result: &mut RequestResult,
)
    requires
        old(state).wf(),
    ensures
        final(state).wf(),
        final(state).plans == old(state).plans,
        final(state).polls == old(state).polls,
        final(state).keyboards == old(state).keyboards,
        final(state).whitelist == old(state).whitelist,
        final(state).config == old(state).config,
        meals_removed(old(state).meals@, final(state).meals@, chat_id as int, upper_of(name@)),
        ({
            let found = old(state).meals@.filter(name_matches(chat_id as int, upper_of(name@)));
            final(result)@ == old(result)@ + (if found.len() == 0 {
                seq![
                    RequestKindView::Message {
                        chat_id: chat_id as int,
                        text: (MsgTextView::Plain { note: Note::NoMealWithName }),
                        keyboard: None,
                        notify: false,
                    },
                ]
            } else {
                Seq::new(
                    found.len(),
                    |k: int| RequestKindView::Message {
                        chat_id: chat_id as int,
                        text: (MsgTextView::MealWith { meal: found[k], note: Note::Deleted }),
                        keyboard: None,
                        notify: false,
                    },
                )
            })
        }),
{
    let ghost s0 = old(state).meals@;
    let ghost pred = name_matches(chat_id as int, upper_of(name@));
    let ghost found = s0.filter(pred);
    let matches = state.meals_by_name(chat_id, name);
    let n = matches.len();
    if n == 0 {
        result.message(chat_id, MsgText::Plain { note: Note::NoMealWithName }, None);
        proof {
            crate::store::lemma_filter_unique(s0, pred);
            assert(final(result)@ =~= old(result)@ + seq![
                RequestKindView::Message {
                    chat_id: chat_id as int,
                    text: (MsgTextView::Plain { note: Note::NoMealWithName }),
                    keyboard: None,
                    notify: false,
                },
            ]);
            assert forall|j: int|
                0 <= j < state.meals@.len() implies s0.contains(#[trigger] state.meals@[j]) && !(
            pred(state.meals@[j])) by {
                if pred(state.meals@[j]) {
                    s0.lemma_filter_contains(pred, j);
                }
            }
            assert forall|j: int|
                0 <= j < s0.len() && !(pred(#[trigger] s0[j])) implies has_entry(
                state.meals@,
                s0[j].vid(),
            ) && entry_of(state.meals@, s0[j].vid()) == s0[j] by {
                lemma_entry_of(s0, s0[j].vid(), j);
            }
        }
        return ;
    }
    let ghost batch0 = result@;
    proof {
        crate::store::lemma_filter_unique(s0, pred);
        assert forall|j: int|
            0 <= j < state.meals@.len() && pred(#[trigger] state.meals@[j]) implies exists|k: int|
            0 <= k < n && (#[trigger] found[k]).vid() == state.meals@[j].vid() by {
            s0.lemma_filter_contains(pred, j);
            let k = choose|k: int| 0 <= k < found.len() && found[k] == s0[j];
            assert(found[k].vid() == state.meals@[j].vid());
        }
    }
    let mut i: usize = 0;
    while i < n
        invariant
            0 <= i <= n,
            n == found.len(),
            crate::store::views_of(matches@) == found,
            n == matches@.len(),
            state.wf(),
            state.plans == old(state).plans,
            state.polls == old(state).polls,
            state.keyboards == old(state).keyboards,
            state.whitelist == old(state).whitelist,
            state.config == old(state).config,
            pred == name_matches(chat_id as int, upper_of(name@)),
            found == s0.filter(pred),
            s0 == old(state).meals@,
            old(state).wf(),
            forall|j: int|
                0 <= j < state.meals@.len() ==> s0.contains(#[trigger] state.meals@[j]),
            forall|j: int|
                0 <= j < state.meals@.len() && pred(#[trigger] state.meals@[j]) ==> exists|k: int|
                    i <= k < n && (#[trigger] found[k]).vid() == state.meals@[j].vid(),
            forall|j: int|
                0 <= j < s0.len() && !(pred(#[trigger] s0[j])) ==> has_entry(
                    state.meals@,
                    s0[j].vid(),
                ) && entry_of(state.meals@, s0[j].vid()) == s0[j],
            result@ == batch0 + Seq::new(
                i as nat,
                |k: int| RequestKindView::Message {
                    chat_id: chat_id as int,
                    text: (MsgTextView::MealWith { meal: found[k], note: Note::Deleted }),
                    keyboard: None,
                    notify: false,
                },
            ),
        decreases n - i,
    {
        let target = &matches[i];
        let ghost fv = found[i as int];
        proof {
            assert(matches@[i as int]@ == found[i as int]);
        }
        let ghost cur = state.meals@;
        let removed = state.meals.remove(&target.id);
        proof {
            crate::store::lemma_filter_unique(s0, pred);
            assert forall|j: int|
                0 <= j < state.meals@.len() implies s0.contains(#[trigger] state.meals@[j]) by {
                if has_entry(cur, fv.vid()) {
                    let ri = choose|ri: int|
                        0 <= ri < cur.len() && cur[ri] == removed->Some_0@ && state.meals@
                            == cur.remove(ri);
                    if j < ri {
                        assert(state.meals@[j] == cur[j]);
                    } else {
                        assert(state.meals@[j] == cur[j + 1]);
                    }
                } else {
                    assert(state.meals@ == cur);
                }
            }
            assert forall|j: int|
                0 <= j < state.meals@.len() && pred(#[trigger] state.meals@[j]) implies exists|
                k: int,
            |
                i + 1 <= k < n && (#[trigger] found[k]).vid() == state.meals@[j].vid() by {
                assert(s0.contains(state.meals@[j]));
                let sj = choose|sj: int| 0 <= sj < s0.len() && s0[sj] == state.meals@[j];
                assert(cur.contains(state.meals@[j])) by {
                    if has_entry(cur, fv.vid()) {
                        let ri = choose|ri: int|
                            0 <= ri < cur.len() && cur[ri] == removed->Some_0@ && state.meals@
                                == cur.remove(ri);
                        let jj = if j < ri {
                            j
                        } else {
                            j + 1
                        };
                        assert(state.meals@[j] == cur[jj]);
                    }
                }
                let cj = choose|cj: int| 0 <= cj < cur.len() && cur[cj] == state.meals@[j];
                let k = choose|k: int| i <= k < n && found[k].vid() == cur[cj].vid();
                assert(!has_entry(state.meals@, fv.vid()));
                if k == i {
                    let mj = choose|mj: int|
                        0 <= mj < state.meals@.len() && state.meals@[mj] == state.meals@[j];
                    assert(state.meals@[j].vid() == fv.vid());
                    assert(has_entry(state.meals@, fv.vid()));
                }
            }
            assert forall|j: int|
                0 <= j < s0.len() && !(pred(#[trigger] s0[j])) implies has_entry(
                state.meals@,
                s0[j].vid(),
            ) && entry_of(state.meals@, s0[j].vid()) == s0[j] by {
                assert(pred(fv)) by {
                    s0.lemma_filter_pred(pred, i as int);
                }
                assert(s0[j].vid() != fv.vid()) by {
                    if s0[j].vid() == fv.vid() {
                        assert(s0.contains(fv));
                        lemma_entry_unique(s0, s0[j], fv);
                    }
                }
                assert(has_entry(cur, s0[j].vid()) && entry_of(cur, s0[j].vid()) == s0[j]);
                let kj = choose|kj: int| 0 <= kj < cur.len() && cur[kj].vid() == s0[j].vid();
                lemma_entry_of(cur, s0[j].vid(), kj);
                if has_entry(cur, fv.vid()) {
                    let ri = choose|ri: int|
                        0 <= ri < cur.len() && cur[ri] == removed->Some_0@ && state.meals@
                            == cur.remove(ri);
                    assert(kj != ri);
                    let nj = if kj < ri {
                        kj
                    } else {
                        kj - 1
                    };
                    assert(state.meals@[nj] == cur[kj]);
                    lemma_entry_of(state.meals@, s0[j].vid(), nj);
                }
            }
        }
        result.message(
            chat_id,
            MsgText::MealWith { meal: meal_from_view(target), note: Note::Deleted },
            None,
        );
        proof {
            assert(result@ =~= batch0 + Seq::new(
                (i + 1) as nat,
                |k: int| RequestKindView::Message {
                    chat_id: chat_id as int,
                    text: (MsgTextView::MealWith { meal: found[k], note: Note::Deleted }),
                    keyboard: None,
                    notify: false,
                },
            ));
        }
        i = i + 1;
    }
    proof {
        assert forall|j: int|
            0 <= j < state.meals@.len() implies !(pred(#[trigger] state.meals@[j])) by {}
    }
}

/// A batch item that shows `m` as a card in `chat` under some keyboard: a
/// photo card when the meal has photos, a plain message otherwise.
pub open spec fn is_meal_card_for(item: RequestKindView, chat: int, m: MealView) -> bool {
    if m.photos.len() > 0 {
        item matches RequestKindView::Photo { chat_id, photo_id, caption, keyboard } && chat_id
            == chat && photo_id == m.photos.last() && caption == (MsgTextView::MealOnly {
            meal: m,
        }) && keyboard is Some
    } else {
        item matches RequestKindView::Message { chat_id, text, keyboard, notify } && chat_id
            == chat && text == (MsgTextView::MealOnly { meal: m }) && keyboard is Some && notify
            == false
    }
}

/// Shows every matching meal as its own card with a dismiss button; a card
/// per match and a keyboard per card.
fn get_meals_by_name(
    state: &mut State,
    chat_id: i64,
    name: &String,
    result: &mut RequestResult,
)
    requires
        old(state).wf(),
    ensures
        final(state).wf(),
        final(state).meals == old(state).meals,
        final(state).plans == old(state).plans,
        final(state).polls == old(state).polls,
        final(state).whitelist == old(state).whitelist,
        final(state).config == old(state).config,
        ({
            let found = old(state).meals@.filter(name_matches(chat_id as int, upper_of(name@)));
            &&& final(result)@.len() == old(result)@.len() + found.len()
            &&& forall|k: int|
                0 <= k < old(result)@.len() ==> final(result)@[k] == old(result)@[k]
            &&& forall|k: int|
                0 <= k < found.len() ==> is_meal_card_for(
                    #[trigger] final(result)@[old(result)@.len() + k],
                    chat_id as int,
                    found[k],
                )
        }),
{
    let ghost s0 = old(state).meals@;
    let ghost pred = name_matches(chat_id as int, upper_of(name@));
    let ghost found = s0.filter(pred);
    let ghost batch0 = result@;
    let matches = state.meals_by_name(chat_id, name);
    let n = matches.len();
    let mut i: usize = 0;
    while i < n
        invariant
            0 <= i <= n,
            n == found.len(),
            crate::store::views_of(matches@) == found,
            n == matches@.len(),
            state.wf(),
            state.meals == old(state).meals,
            state.plans == old(state).plans,
            state.polls == old(state).polls,
            state.whitelist == old(state).whitelist,
            state.config == old(state).config,
            result@.len() == batch0.len() + i,
            forall|k: int| 0 <= k < batch0.len() ==> result@[k] == batch0[k],
            forall|k: int|
                0 <= k < i ==> is_meal_card_for(
                    #[trigger] result@[batch0.len() + k],
                    chat_id as int,
                    found[k],
                ),
        decreases n - i,
    {
        let target = &matches[i];
        let ghost fv = found[i as int];
        proof {
            assert(matches@[i as int]@ == found[i as int]);
        }
        let cancel_button = Button::new(String::from_str("CANCEL"), ButtonKind::DeleteMessage);
        let ghost cbv = cancel_button@;
        let mut row: Vec<Button> = Vec::new();
        let ghost er = row@;
        row.push(cancel_button);
        proof {
            crate::button::lemma_row_views_push(er, row@.last());
            assert(row@ =~= er.push(row@.last()));
        }
        let ghost rv = row_views(row@);
        let mut rows: Vec<Vec<Button>> = Vec::new();
        let ghost eg = rows@;
        rows.push(row);
        proof {
            crate::button::lemma_rows_views_push(eg, rows@.last());
            assert(rows@ =~= eg.push(rows@.last()));
        }
        let ghost grid = rows_views(rows@);
        proof {
            assert(grid =~= seq![rv]);
            assert(rv =~= seq![cbv]);
        }
        let keyboard = Keyboard::new(chat_id).buttons(rows);
        let ghost kbv = keyboard@;
        proof {
            crate::dispatch::lemma_stamp_grid(grid, kbv.id);
            assert forall|a: int, b: int|
                0 <= a < grid.len() && 0 <= b < grid[a].len() implies id_wf(
                (#[trigger] grid[a][b]).id,
            ) && grid[a][b].kind.wf() by {
                assert(grid[a][b] == cbv);
            }
            lemma_built_keyboard_wf(kbv, grid);
            assert(kbv.buttons[0].len() == 1);
            assert(kbv.has_buttons());
        }
        let keyboard = keyboard.save(state);
        let card = target.request(chat_id, None, Some(keyboard));
        let ghost prevb = result@;
        result.add(card);
        proof {
            assert forall|k: int|
                0 <= k < i + 1 implies is_meal_card_for(
                #[trigger] result@[batch0.len() + k],
                chat_id as int,
                found[k],
            ) by {
                if k < i {
                    assert(result@[batch0.len() + k] == prevb[batch0.len() + k]);
                } else {
                    assert(result@[batch0.len() + i as int] == crate::meal::meal_card(
                        chat_id as int,
                        found[i as int],
                        None,
                        Some(kbv),
                    ));
                }
            }
        }
        i = i + 1;
    }
}

/// Sends the preference poll for `plan`, correlated to a fresh keyboard and
/// a poll record underway.
fn announce_plan_poll(state: &mut State, chat_id: i64, plan: &Plan, result: &mut RequestResult)
    requires
        old(state).wf(),
        plan@.wf(),
    ensures
        final(state).wf(),
        final(state).meals == old(state).meals,
        final(state).plans == old(state).plans,
        final(state).polls == old(state).polls,
        final(state).whitelist == old(state).whitelist,
        final(state).config == old(state).config,
        exists|kbv: KeyboardView, bv: PollBuildView|
            {
                &&& keyboard_registered(*old(state), *final(state), kbv, chat_id as int)
                &&& is_plan_poll_grid(kbv.buttons, plan@)
                &&& #[trigger] plan_poll_pair(kbv, bv)
                &&& (bv.poll_kind matches PollKindView::Plan { plan_id: p } && p == plan@.id)
                &&& bv.chat_id == chat_id as int
                &&& bv.keyboard_id == kbv.id
                &&& bv.is_canceled == false
                &&& id_wf(bv.id)
                &&& final(result)@ == old(result)@ + seq![
                    RequestKindView::Poll {
                        chat_id: chat_id as int,
                        question: (MsgTextView::Plain { note: Note::PlanHeader }),
                        answers: answers_of(plan@.meals),
                        reply_to: None,
                        keyboard: Some(kbv),
                        builder: bv,
                    },
                ]
            },
{
    let grid_buttons = poll_plan_buttons(plan);
    let ghost grid = rows_views(grid_buttons@);
    let keyboard0 = Keyboard::new(chat_id);
    let kb_id = keyboard0.id.clone();
    let builder = Poll::build(chat_id, PollKind::Plan { plan_id: plan.id.clone() }, kb_id);
    let ghost bv = builder@;
    let keyboard = keyboard0.buttons(grid_buttons);
    let ghost kbv = keyboard@;
    proof {
        crate::dispatch::lemma_stamp_grid(grid, kbv.id);
        assert(crate::dispatch::is_control_row(kbv.buttons[kbv.buttons.len() - 1], plan@.id)) by {
            let last = grid.len() - 1;
            assert(kbv.buttons[last].len() == grid[last].len());
            assert(kbv.buttons[last][0].kind == grid[last][0].kind);
            assert(kbv.buttons[last][1].kind == grid[last][1].kind);
            assert(kbv.buttons[last][2].kind == grid[last][2].kind);
            assert(kbv.buttons[last][0].text == grid[last][0].text);
            assert(kbv.buttons[last][1].text == grid[last][1].text);
            assert(kbv.buttons[last][2].text == grid[last][2].text);
        }
        assert(crate::dispatch::is_plan_info_rows(kbv.buttons.take(kbv.buttons.len() - 1), plan@))
            by {
            let pre = kbv.buttons.take(kbv.buttons.len() - 1);
            let gpre = grid.take(grid.len() - 1);

            assert(pre.len() == gpre.len());
            assert forall|pi: int| 0 <= pi < pre.len() implies #[trigger] pre[pi].len() == gpre[pi].len() by {
                assert(pre[pi] == kbv.buttons[pi]);
                assert(kbv.buttons[pi].len() == grid[pi].len());
                assert(gpre[pi] == grid[pi]);
            }
            assert forall|a: int, b: int|
                0 <= a < pre.len() && 0 <= b < pre[a].len() implies {
                &&& 0 <= 4 * a + b < plan@.meals.len()
                &&& ((#[trigger] pre[a][b]).kind matches ButtonKindView::DisplayPlanMeal {
                    meal_id,
                    plan_id,
                } && meal_id == plan@.meals[4 * a + b].id && plan_id == plan@.id)
                &&& pre[a][b].text == plan@.meals[4 * a + b].name
            } by {
                assert(pre[a] == kbv.buttons[a]);
                assert(kbv.buttons[a].len() == grid[a].len());
                assert(pre[a][b].kind == grid[a][b].kind);
                assert(pre[a][b].text == grid[a][b].text);
                assert(gpre[a][b] == grid[a][b]);
            }
        }
        assert(is_plan_poll_grid(kbv.buttons, plan@));
        assert forall|a: int, b: int|
            0 <= a < grid.len() && 0 <= b < grid[a].len() implies id_wf(
            (#[trigger] grid[a][b]).id,
        ) && grid[a][b].kind.wf() by {}
        lemma_built_keyboard_wf(kbv, grid);
        assert(kbv.buttons[grid.len() - 1].len() == 3);
        assert(kbv.has_buttons());
    }
    let keyboard = keyboard.save(state);
    let answers = plan.answers();
    proof {
        crate::text::lemma_deep_is_str_views(answers);
        assert(keyboard_registered(*old(state), *state, kbv, chat_id as int));
        assert(plan_poll_pair(kbv, bv));
    }
    result.add(
        RequestKind::Poll {
            chat_id,
            question: MsgText::Plain { note: Note::PlanHeader },
            answers,
            reply_to: None,
            keyboard: Some(keyboard),
            builder,
        },
    );
}

/// Takes every plan of the chat out of the registry; plans of other chats
/// keep their entries untouched.
fn drop_chat_plans(state: &mut State, chat_id: i64)
    requires
        old(state).wf(),
    ensures
        final(state).wf(),
        final(state).meals == old(state).meals,
        final(state).polls == old(state).polls,
        final(state).keyboards == old(state).keyboards,
        final(state).whitelist == old(state).whitelist,
        final(state).config == old(state).config,
        forall|j: int|
            0 <= j < final(state).plans@.len() ==> (#[trigger] final(state).plans@[j]).vchat()
                != chat_id as int,
        forall|j: int|
            0 <= j < old(state).plans@.len() && (#[trigger] old(state).plans@[j]).vchat()
                != chat_id as int ==> has_entry(final(state).plans@, old(state).plans@[j].vid())
                && entry_of(final(state).plans@, old(state).plans@[j].vid())
                == old(state).plans@[j],
{
    let ghost s0 = old(state).plans@;
    loop
        invariant
            state.wf(),
            old(state).wf(),
            s0 == old(state).plans@,
            state.meals == old(state).meals,
            state.polls == old(state).polls,
            state.keyboards == old(state).keyboards,
            state.whitelist == old(state).whitelist,
            state.config == old(state).config,
            forall|j: int|
                0 <= j < s0.len() && (#[trigger] s0[j]).vchat() != chat_id as int ==> has_entry(
                    state.plans@,
                    s0[j].vid(),
                ) && entry_of(state.plans@, s0[j].vid()) == s0[j],
        ensures
            forall|j: int|
                0 <= j < state.plans@.len() ==> (#[trigger] state.plans@[j]).vchat()
                    != chat_id as int,
        decreases state.plans@.len(),
    {
        let next = state.first_plan(chat_id);
        match next {
            Some(plan) => {
                let ghost cur = state.plans@;
                let ghost pv = plan@;
                let removed = state.plans.remove(&plan.id);
                proof {
                    assert(cur.contains(pv));
                    let ci = choose|ci: int| 0 <= ci < cur.len() && cur[ci] == pv;
                    assert(has_entry(cur, pv.vid()));
                    assert(removed is Some);
                    let ri = choose|ri: int|
                        0 <= ri < cur.len() && cur[ri] == removed->Some_0@ && state.plans@
                            == cur.remove(ri);
                    assert(state.plans@.len() < cur.len());
                    assert forall|j: int|
                        0 <= j < s0.len() && (#[trigger] s0[j]).vchat() != chat_id as int implies
                        has_entry(state.plans@, s0[j].vid()) && entry_of(
                        state.plans@,
                        s0[j].vid(),
                    ) == s0[j] by {
                        let kj = choose|kj: int| 0 <= kj < cur.len() && cur[kj].vid() == s0[j].vid();
                        lemma_entry_of(cur, s0[j].vid(), kj);
                        assert(cur[kj] == s0[j]);
                        assert(cur[ri].vid() == pv.vid());
                        assert(cur[ri].vchat() == chat_id as int) by {
                            lemma_entry_of(cur, pv.vid(), ci);
                            lemma_entry_of(cur, pv.vid(), ri);
                        }
                        assert(kj != ri);
                        let nj = if kj < ri {
                            kj
                        } else {
                            kj - 1
                        };
                        assert(state.plans@[nj] == cur[kj]);
                        lemma_entry_of(state.plans@, s0[j].vid(), nj);
                    }
                }
            },
            None => {
                break ;
            },
        }
    }
}

/// A witness marker, constantly true: it claims nothing and only anchors the
/// trigger of the quantifier that binds the fresh plan, its keyboard and its
/// poll record together. The real constraints stand beside it.
pub open spec fn plan_cmd_parts(newp: PlanView, kbv: KeyboardView, bv: PollBuildView) -> bool {
    true
}

/// What a lawful plan request leaves behind: the chat's plans replaced by one
/// fresh weighted sample, announced as a poll.
pub open spec fn plan_generated(
    st0: State,
    st1: State,
    chat: int,
    days: int,
    batch_tail: Seq<RequestKindView>,
) -> bool {
    exists|newp: PlanView, kbv: KeyboardView, bv: PollBuildView|
        {
            &&& #[trigger] plan_cmd_parts(newp, kbv, bv)
            &&& newp.wf()
            &&& newp.vchat() == chat
            &&& newp.meals.len() == (if days <= st0.meals@.filter(
                crate::store::by_chat(chat),
            ).len() {
                days
            } else {
                st0.meals@.filter(crate::store::by_chat(chat)).len() as int
            })
            &&& forall|i: int|
                0 <= i < newp.meals.len() ==> st0.meals@.filter(crate::store::by_chat(chat)).contains(
                    #[trigger] newp.meals[i],
                )
            &&& has_entry(st1.plans@, newp.id) && entry_of(st1.plans@, newp.id) == newp
            &&& forall|j: int|
                0 <= j < st1.plans@.len() ==> (#[trigger] st1.plans@[j]) == newp
                    || st1.plans@[j].vchat() != chat
            &&& forall|j: int|
                0 <= j < st0.plans@.len() && (#[trigger] st0.plans@[j]).vchat() != chat ==> has_entry(
                    st1.plans@,
                    st0.plans@[j].vid(),
                )
            &&& has_entry(st1.keyboards@, kbv.id)
            &&& is_plan_poll_grid(kbv.buttons, newp)
            &&& kbv.chat_id == chat
            &&& (bv.poll_kind matches PollKindView::Plan { plan_id: p } && p == newp.id)
            &&& bv.chat_id == chat
            &&& bv.keyboard_id == kbv.id
            &&& batch_tail == seq![
                RequestKindView::Poll {
                    chat_id: chat,
                    question: (MsgTextView::Plain { note: Note::PlanHeader }),
                    answers: answers_of(newp.meals),
                    reply_to: None,
                    keyboard: Some(kbv),
                    builder: bv,
                },
            ]
        }
}

/// Builds and announces a fresh plan over the chat's meals: the plan command
/// with a lawful day count.
fn generate_plan(state: &mut State, chat_id: i64, days: usize, result: &mut RequestResult)
    requires
        old(state).wf(),
    ensures
        final(state).wf(),
        final(state).meals == old(state).meals,
        final(state).polls == old(state).polls,
        final(state).whitelist == old(state).whitelist,
        final(state).config == old(state).config,
        exists|tail: Seq<RequestKindView>|
            #[trigger] plan_generated(*old(state), *final(state), chat_id as int, days as int, tail)
                && final(result)@ == old(result)@ + tail,
{
    let ghost chatf = old(state).meals@.filter(crate::store::by_chat(chat_id as int));
    let chat_meals = state.meals.all_chat(chat_id);
    proof {
        crate::store::lemma_filter_unique(
            old(state).meals@,
            crate::store::by_chat(chat_id as int),
        );
        assert(meal_views(chat_meals@) =~= chatf);
        assert forall|i: int|
            0 <= i < chat_meals@.len() implies (#[trigger] meal_views(chat_meals@)[i]).wf() by {
            assert(chatf[i] == meal_views(chat_meals@)[i]);
            assert(old(state).meals@.contains(chatf[i]));
            let k = choose|k: int|
                0 <= k < old(state).meals@.len() && old(state).meals@[k] == chatf[i];
            assert(old(state).meals@[k].wf());
        }
    }
    let new_plan = Plan::gen(chat_id, chat_meals, days);
    let ghost newp = new_plan@;
    drop_chat_plans(state, chat_id);
    let ghost mid_plans = state.plans@;
    let dup = new_plan.duplicate();
    state.plans.add(dup);
    proof {
        assert forall|p: int| 0 <= p < state.plans@.len() implies (
        #[trigger] state.plans@[p]).wf() by {
            if has_entry(mid_plans, newp.vid()) {
                let i = choose|i: int|
                    0 <= i < mid_plans.len() && mid_plans[i].vid() == newp.vid() && state.plans@
                        == mid_plans.update(i, newp);
                if p != i {
                    assert(state.plans@[p] == mid_plans[p]);
                    assert(mid_plans[p].wf());
                }
            } else {
                if p < mid_plans.len() {
                    assert(state.plans@[p] == mid_plans[p]);
                    assert(mid_plans[p].wf());
                } else {
                    assert(state.plans@[p] == newp);
                }
            }
        }
        assert forall|j: int|
            0 <= j < state.plans@.len() implies (#[trigger] state.plans@[j]) == newp
                || state.plans@[j].vchat() != chat_id as int by {
            if has_entry(mid_plans, newp.vid()) {
                let i = choose|i: int|
                    0 <= i < mid_plans.len() && mid_plans[i].vid() == newp.vid() && state.plans@
                        == mid_plans.update(i, newp);
                if j != i {
                    assert(state.plans@[j] == mid_plans[j]);
                }
            } else {
                if j < mid_plans.len() {
                    assert(state.plans@[j] == mid_plans[j]);
                } else {
                    assert(state.plans@[j] == newp);
                }
            }
        }
        assert forall|j: int|
            0 <= j < old(state).plans@.len() && (#[trigger] old(state).plans@[j]).vchat()
                != chat_id as int implies has_entry(state.plans@, old(state).plans@[j].vid()) by {
            crate::store::lemma_added_preserves(
                mid_plans,
                state.plans@,
                newp,
                old(state).plans@[j].vid(),
            );
        }
        assert(has_entry(state.plans@, newp.vid()));
        let ei = choose|ei: int|
            0 <= ei < state.plans@.len() && state.plans@[ei].vid() == newp.vid();
        assert(state.plans@[ei] == newp || state.plans@[ei].vchat() != chat_id as int);
        lemma_entry_of(state.plans@, newp.id, ei);
        assert forall|i: int|
            0 <= i < newp.meals.len() implies chatf.contains(#[trigger] newp.meals[i]) by {
            assert(meal_views(chat_meals@).contains(newp.meals[i]));
            let k = choose|k: int|
                0 <= k < meal_views(chat_meals@).len() && meal_views(chat_meals@)[k]
                    == newp.meals[i];
            assert(chatf[k] == newp.meals[i]);
        }
    }
    let ghost b0 = result@;
    let ghost pre_announce = *state;
    announce_plan_poll(state, chat_id, &new_plan, result);
    proof {
        let (kbv, bv) = choose|kbv: KeyboardView, bv: PollBuildView|
            {
                &&& keyboard_registered(pre_announce, *state, kbv, chat_id as int)
                &&& is_plan_poll_grid(kbv.buttons, newp)
                &&& #[trigger] plan_poll_pair(kbv, bv)
                &&& (bv.poll_kind matches PollKindView::Plan { plan_id: p } && p == newp.id)
                &&& bv.chat_id == chat_id as int
                &&& bv.keyboard_id == kbv.id
                &&& bv.is_canceled == false
                &&& id_wf(bv.id)
                &&& result@ == b0 + seq![
                    RequestKindView::Poll {
                        chat_id: chat_id as int,
                        question: (MsgTextView::Plain { note: Note::PlanHeader }),
                        answers: answers_of(newp.meals),
                        reply_to: None,
                        keyboard: Some(kbv),
                        builder: bv,
                    },
                ]
            };
        let tail = seq![
            RequestKindView::Poll {
                chat_id: chat_id as int,
                question: (MsgTextView::Plain { note: Note::PlanHeader }),
                answers: answers_of(newp.meals),
                reply_to: None,
                keyboard: Some(kbv),
                builder: bv,
            },
        ];
        assert(has_entry(state.keyboards@, kbv.id));
        assert(plan_cmd_parts(newp, kbv, bv));
        assert(plan_generated(*old(state), *state, chat_id as int, days as int, tail));
    }
}

/// Whether `user` is on the whitelist.
pub open spec fn has_user(ws: Seq<String>, u: Seq<char>) -> bool {
    exists|i: int| 0 <= i < ws.len() && (#[trigger] ws[i])@ == u
}

/// How the `Op` command alone may touch the whitelist: the named user gets in
/// exactly when the password matches.
pub open spec fn op_applied(st0: State, st1: State, cmd: CommandView) -> bool {
    match cmd {
        CommandView::Op(u, p) => if p == st0.config.password@ {
            crate::text::str_views(st1.whitelist@) == crate::text::str_views(st0.whitelist@).push(u)
        } else {
            st1.whitelist == st0.whitelist
        },
        _ => st1.whitelist == st0.whitelist,
    }
}

/// The notice the `Op` command sends back, before anything else.
pub open spec fn op_batch(st0: State, cmd: CommandView, chat: int) -> Seq<RequestKindView> {
    match cmd {
        CommandView::Op(u, p) => seq![
            RequestKindView::Message {
                chat_id: chat,
                text: (MsgTextView::Plain {
                    note: if p == st0.config.password@ {
                        Note::UserWhitelisted
                    } else {
                        Note::WrongPassword
                    },
                }),
                keyboard: None,
                notify: false,
            },
        ],
        _ => Seq::<RequestKindView>::empty(),
    }
}

/// A witness marker, constantly true: it claims nothing and only anchors the
/// trigger of the quantifier that binds a fresh meal and its keyboard
/// together. The real constraints on both stand beside it.
pub open spec fn new_meal_parts(mv: MealView, kbv: KeyboardView) -> bool {
    true
}

/// One plain notice followed by the dismissal of the command message.
pub open spec fn notice_and_delete(chat: int, message_id: int, note: Note) -> Seq<RequestKindView> {
    seq![
        RequestKindView::Message {
            chat_id: chat,
            text: (MsgTextView::Plain { note }),
            keyboard: None,
            notify: false,
        },
        RequestKindView::DeleteMessage { chat_id: chat, message_id },
    ]
}

/// The dismissal of the command message that ends every handled command.
pub open spec fn delete_item(chat: int, message_id: int) -> RequestKindView {
    RequestKindView::DeleteMessage { chat_id: chat, message_id }
}

impl Command {
    /// Runs one fully parsed command against the shared state, producing the
    /// batch of outbound effects. `Op` runs for everyone (it is how the first
    /// user gets in); everything else asks the whitelist first.
    pub fn run(command: &Command, state: &mut State, ctx: &MessageContext) -> (r: RequestResult)
        requires
            old(state).wf(),
        ensures
            final(state).wf(),
            final(state).config == old(state).config,
            op_applied(*old(state), *final(state), command@),
            command_outcome(*old(state), *final(state), *ctx, command@, r@),
    {
        let mut result = RequestResult::new();
        let ghost st0 = *old(state);
        let chat_id = ctx.chat_id;
        match command {
            Command::Op(username, password) => {
                if *password == state.config.password {
                    state.whitelist_user(username.clone());
                    proof {
                        crate::text::lemma_str_views_push(
                            st0.whitelist@,
                            state.whitelist@.last(),
                        );
                        assert(state.whitelist@ =~= st0.whitelist@.push(state.whitelist@.last()));
                    }
                    result.message(
                        chat_id,
                        MsgText::Plain { note: Note::UserWhitelisted },
                        None,
                    );
                } else {
                    result.message(chat_id, MsgText::Plain { note: Note::WrongPassword }, None);
                }
            },
            _ => {},
        }
        proof {
            assert(result@ =~= op_batch(st0, command@, chat_id as int));
        }
        let ghost opb = result@;
        let username = match &ctx.username {
            Some(u) => u.clone(),
            None => {
                result.message(chat_id, MsgText::Plain { note: Note::NoUserFound }, None);
                proof {
                    assert(result@ =~= opb + seq![
                        RequestKindView::Message {
                            chat_id: chat_id as int,
                            text: (MsgTextView::Plain { note: Note::NoUserFound }),
                            keyboard: None,
                            notify: false,
                        },
                    ]);
                }
                return result;
            },
        };
        if !state.is_whitelisted(&username) {
            result.message(chat_id, MsgText::Plain { note: Note::UserNotWhitelisted }, None);
            proof {
                assert(result@ =~= opb + seq![
                    RequestKindView::Message {
                        chat_id: chat_id as int,
                        text: (MsgTextView::Plain { note: Note::UserNotWhitelisted }),
                        keyboard: None,
                        notify: false,
                    },
                ]);
            }
            return result;
        }
        match command {
            Command::Op(_, _) => {},
            Command::Help => {
                result.message(chat_id, MsgText::Plain { note: Note::Help }, None);
            },
            Command::Version => {
                result.message(chat_id, MsgText::Plain { note: Note::Version }, None);
            },
            Command::NewMeal(meal_name) => {
                new_meal_command(state, ctx, meal_name, &mut result);
            },
            Command::New { meal_name, rating, tags, url } => {
                new_full_command(state, ctx, meal_name, rating, tags, url, &mut result);
            },
            Command::Plan(days_opt) => {
                plan_command(state, ctx, days_opt, &mut result);
            },
            Command::Get(name) => {
                get_meals_by_name(state, chat_id, name, &mut result);
            },
            Command::Remove(name) => {
                remove_meals_by_name(state, chat_id, name, &mut result);
            },
            Command::List => {
                list_command(state, ctx, &mut result);
            },
            Command::Rename(name, to) => {
                edit_meals_by_name(
                    state,
                    chat_id,
                    ctx.message_id,
                    name,
                    &MealEdit::Rename(to.clone()),
                    Note::Renamed,
                    &mut result,
                );
            },
            Command::Rate(name, rating) => {
                let clamped = crate::clamp_rating(*rating);
                edit_meals_by_name(
                    state,
                    chat_id,
                    ctx.message_id,
                    name,
                    &MealEdit::Rate(Some(clamped)),
                    Note::ChangedRating,
                    &mut result,
                );
            },
            Command::Tag(name, tags) => {
                edit_meals_by_name(
                    state,
                    chat_id,
                    ctx.message_id,
                    name,
                    &MealEdit::AddTags(clone_string_vec(tags)),
                    Note::AddedTags,
                    &mut result,
                );
            },
            Command::TagRemove(name, tags) => {
                edit_meals_by_name(
                    state,
                    chat_id,
                    ctx.message_id,
                    name,
                    &MealEdit::RemoveTags(clone_string_vec(tags)),
                    Note::RemovedTags,
                    &mut result,
                );
            },
            Command::Ref(name, to) => {
                edit_meals_by_name(
                    state,
                    chat_id,
                    ctx.message_id,
                    name,
                    &MealEdit::Url(Some(to.clone())),
                    Note::ChangedUrl,
                    &mut result,
                );
            },
        }
        let ghost pre_del = result@;
        result.add(
            RequestKind::DeleteMessage { chat_id, message_id: ctx.message_id },
        );
        proof {
            match command@ {
                CommandView::Get(name) => {
                    let found = st0.meals@.filter(
                        name_matches(chat_id as int, upper_of(name)),
                    );
                    assert forall|k: int|
                        0 <= k < found.len() implies is_meal_card_for(
                        #[trigger] result@[k],
                        chat_id as int,
                        found[k],
                    ) by {
                        assert(pre_del[0 + k] == pre_del[k]);
                        assert(result@[k] == pre_del[k]);
                    }
                    assert(result@.last() == delete_item(chat_id as int, ctx.message_id as int));
                },
                _ => {},
            }
            match command@ {
                CommandView::Op(_, _) => {
                    assert(result@ =~= op_batch(st0, command@, chat_id as int).push(
                        delete_item(chat_id as int, ctx.message_id as int),
                    ));
                },
                CommandView::Help => {
                    assert(result@ =~= notice_and_delete(
                        chat_id as int,
                        ctx.message_id as int,
                        Note::Help,
                    ));
                },
                CommandView::Version => {
                    assert(result@ =~= notice_and_delete(
                        chat_id as int,
                        ctx.message_id as int,
                        Note::Version,
                    ));
                },
                _ => {},
            }
        }
        result
    }

    /// Runs this command; see [`Command::run`].
    pub fn execute(&self, state: &mut State, ctx: &MessageContext) -> (r: RequestResult)
        requires
            old(state).wf(),
        ensures
            final(state).wf(),
            final(state).config == old(state).config,
            op_applied(*old(state), *final(state), self@),
            command_outcome(*old(state), *final(state), *ctx, self@, r@),
    {
        Command::run(self, state, ctx)
    }
}

/// Everything one handled command leaves behind: how the state moved and
/// which batch came out, for every variant and every whitelist outcome.
pub open spec fn command_outcome(
    st0: State,
    st1: State,
    ctx: MessageContext,
    cmd: CommandView,
    batch: Seq<RequestKindView>,
) -> bool {
    let chat = ctx.chat_id as int;
    let opb = op_batch(st0, cmd, chat);
    match ctx.username {
        None => {
            &&& st1.meals == st0.meals
            &&& st1.plans == st0.plans
            &&& st1.polls == st0.polls
            &&& st1.keyboards == st0.keyboards
            &&& batch == opb + seq![
                RequestKindView::Message {
                    chat_id: chat,
                    text: (MsgTextView::Plain { note: Note::NoUserFound }),
                    keyboard: None,
                    notify: false,
                },
            ]
        },
        Some(u) => if !has_user(st1.whitelist@, u@) {
            &&& st1.meals == st0.meals
            &&& st1.plans == st0.plans
            &&& st1.polls == st0.polls
            &&& st1.keyboards == st0.keyboards
            &&& batch == opb + seq![
                RequestKindView::Message {
                    chat_id: chat,
                    text: (MsgTextView::Plain { note: Note::UserNotWhitelisted }),
                    keyboard: None,
                    notify: false,
                },
            ]
        } else {
            let del = delete_item(chat, ctx.message_id as int);
            match cmd {
                CommandView::Op(_, _) => batch == opb.push(del) && st1.meals == st0.meals
                    && st1.plans == st0.plans && st1.polls == st0.polls && st1.keyboards
                    == st0.keyboards,
                CommandView::Help => batch == notice_and_delete(
                    chat,
                    ctx.message_id as int,
                    Note::Help,
                ) && st1.meals == st0.meals && st1.plans == st0.plans && st1.polls == st0.polls
                    && st1.keyboards == st0.keyboards,
                CommandView::Version => batch == notice_and_delete(
                    chat,
                    ctx.message_id as int,
                    Note::Version,
                ) && st1.meals == st0.meals && st1.plans == st0.plans && st1.polls == st0.polls
                    && st1.keyboards == st0.keyboards,
                CommandView::NewMeal(name) => new_meal_outcome(st0, st1, ctx, name, batch),
                CommandView::New { meal_name, rating, tags, url } => new_full_outcome(
                    st0,
                    st1,
                    ctx,
                    meal_name,
                    rating,
                    tags,
                    url,
                    batch,
                ),
                CommandView::Plan(days) => plan_outcome(st0, st1, ctx, days, batch),
                CommandView::Get(name) => {
                    let found = st0.meals@.filter(name_matches(chat, upper_of(name)));
                    &&& st1.meals == st0.meals
                    &&& st1.plans == st0.plans
                    &&& st1.polls == st0.polls
                    &&& batch.len() == found.len() + 1
                    &&& forall|k: int|
                        0 <= k < found.len() ==> is_meal_card_for(#[trigger] batch[k], chat, found[k])
                    &&& batch.last() == del
                },
                CommandView::Remove(name) => {
                    &&& meals_removed(st0.meals@, st1.meals@, chat, upper_of(name))
                    &&& st1.plans == st0.plans
                    &&& st1.polls == st0.polls
                    &&& st1.keyboards == st0.keyboards
                    &&& batch == removal_batch(st0, chat, upper_of(name)).push(del)
                },
                CommandView::List => list_outcome(st0, st1, ctx, batch),
                CommandView::Rename(name, to) => edit_outcome(
                    st0,
                    st1,
                    ctx,
                    name,
                    MealEditView::Rename(to),
                    Note::Renamed,
                    batch,
                ),
                CommandView::Rate(name, r) => edit_outcome(
                    st0,
                    st1,
                    ctx,
                    name,
                    MealEditView::Rate(
                        Some(
                            if crate::rating_in_range(r) {
                                r
                            } else if r < 1 {
                                1u8
                            } else {
                                5u8
                            },
                        ),
                    ),
                    Note::ChangedRating,
                    batch,
                ),
                CommandView::Tag(name, tags) => edit_outcome(
                    st0,
                    st1,
                    ctx,
                    name,
                    MealEditView::AddTags(tags),
                    Note::AddedTags,
                    batch,
                ),
                CommandView::TagRemove(name, tags) => edit_outcome(
                    st0,
                    st1,
                    ctx,
                    name,
                    MealEditView::RemoveTags(tags),
                    Note::RemovedTags,
                    batch,
                ),
                CommandView::Ref(name, to) => edit_outcome(
                    st0,
                    st1,
                    ctx,
                    name,
                    MealEditView::Url(Some(to)),
                    Note::ChangedUrl,
                    batch,
                ),
            }
        },
    }
}

/// The per-meal reports of a removal command.
pub open spec fn removal_batch(st0: State, chat: int, uname: Seq<char>) -> Seq<RequestKindView> {
    let found = st0.meals@.filter(name_matches(chat, uname));
    if found.len() == 0 {
        seq![
            RequestKindView::Message {
                chat_id: chat,
                text: (MsgTextView::Plain { note: Note::NoMealWithName }),
                keyboard: None,
                notify: false,
            },
        ]
    } else {
        Seq::new(
            found.len(),
            |k: int| RequestKindView::Message {
                chat_id: chat,
                text: (MsgTextView::MealWith { meal: found[k], note: Note::Deleted }),
                keyboard: None,
                notify: false,
            },
        )
    }
}

/// What an edit command leaves behind.
pub open spec fn edit_outcome(
    st0: State,
    st1: State,
    ctx: MessageContext,
    name: Seq<char>,
    e: MealEditView,
    note: Note,
    batch: Seq<RequestKindView>,
) -> bool {
    let chat = ctx.chat_id as int;
    let found = st0.meals@.filter(name_matches(chat, upper_of(name)));
    &&& meals_edited(st0.meals@, st1.meals@, chat, upper_of(name), e)
    &&& st1.plans == st0.plans
    &&& st1.polls == st0.polls
    &&& st1.keyboards == st0.keyboards
    &&& batch == (if found.len() == 0 {
        seq![
            RequestKindView::Message {
                chat_id: chat,
                text: (MsgTextView::Plain { note: Note::NoMealWithName }),
                keyboard: None,
                notify: false,
            },
        ]
    } else {
        Seq::new(
            found.len(),
            |k: int| RequestKindView::Message {
                chat_id: chat,
                text: (MsgTextView::MealWith { meal: found[k], note }),
                keyboard: None,
                notify: false,
            },
        )
    }).push(delete_item(chat, ctx.message_id as int))
}

/// What `NewMeal` leaves behind: one fresh unrated meal in the catalogue and
/// its card under the star row, asking how it tasted.
pub open spec fn new_meal_outcome(
    st0: State,
    st1: State,
    ctx: MessageContext,
    name: Seq<char>,
    batch: Seq<RequestKindView>,
) -> bool {
    let chat = ctx.chat_id as int;
    exists|mv: MealView, kbv: KeyboardView|
        {
            &&& #[trigger] new_meal_parts(mv, kbv)
            &&& mv.name == name
            &&& mv.rating is None
            &&& mv.url is None
            &&& mv.tags == Seq::<Seq<char>>::empty()
            &&& mv.photos == Seq::<Seq<char>>::empty()
            &&& mv.chat_id == chat
            &&& mv.user_id == ctx.user_id as int
            &&& mv.wf()
            &&& added(st0.meals@, st1.meals@, mv)
            &&& st1.plans == st0.plans
            &&& st1.polls == st0.polls
            &&& has_entry(st1.keyboards@, kbv.id)
            &&& kbv.chat_id == chat
            &&& kbv.buttons.len() == 1
            &&& is_rate_row(kbv.buttons[0], 0, mv.id)
            &&& batch == seq![
                crate::meal::meal_card(chat, mv, Some(Note::HowDidItTaste), Some(kbv)),
                delete_item(chat, ctx.message_id as int),
            ]
        }
}

fn new_meal_command(
    state: &mut State,
    ctx: &MessageContext,
    meal_name: &String,
    result: &mut RequestResult,
)
    requires
        old(state).wf(),
        old(result)@ == Seq::<RequestKindView>::empty(),
    ensures
        final(state).wf(),
        final(state).whitelist == old(state).whitelist,
        final(state).config == old(state).config,
        new_meal_outcome(
            *old(state),
            *final(state),
            *ctx,
            meal_name@,
            final(result)@.push(delete_item(ctx.chat_id as int, ctx.message_id as int)),
        ),
{
    let meal = Meal::new(meal_name, ctx.chat_id, ctx.user_id);
    let ghost mv = meal@;
    meal.save(state);
    let rrow = rate_meal_button_row(0, &meal.id);
    let ghost rrv = row_views(rrow@);
    let mut rows: Vec<Vec<Button>> = Vec::new();
    let ghost eg = rows@;
    rows.push(rrow);
    proof {
        crate::button::lemma_rows_views_push(eg, rows@.last());
        assert(rows@ =~= eg.push(rows@.last()));
    }
    let ghost grid = rows_views(rows@);
    proof {
        assert(grid =~= seq![rrv]);
    }
    let keyboard = Keyboard::new(ctx.chat_id).buttons(rows);
    let ghost kbv = keyboard@;
    proof {
        crate::dispatch::lemma_stamp_grid(grid, kbv.id);
        assert(crate::dispatch::is_rate_row(kbv.buttons[0], 0, mv.id)) by {
            crate::dispatch::lemma_stamp_preserves_rate_row_pub(rrv, kbv.id, 0, mv.id);
        }
        assert forall|a: int, b: int|
            0 <= a < grid.len() && 0 <= b < grid[a].len() implies id_wf(
            (#[trigger] grid[a][b]).id,
        ) && grid[a][b].kind.wf() by {
            assert(grid[a][b] == rrv[b]);
            assert(rrv[b].kind matches ButtonKindView::RateMeal { rating: rr, .. } && 1 <= rr <= 5);
        }
        lemma_built_keyboard_wf(kbv, grid);
        assert(kbv.buttons[0].len() == 5);
        assert(kbv.has_buttons());
    }
    let keyboard = keyboard.save(state);
    let card = meal.request(ctx.chat_id, Some(Note::HowDidItTaste), Some(keyboard));
    result.add(card);
    proof {
        assert(new_meal_parts(mv, kbv));
        assert(result@.push(delete_item(ctx.chat_id as int, ctx.message_id as int)) =~= seq![
            crate::meal::meal_card(ctx.chat_id as int, mv, Some(Note::HowDidItTaste), Some(kbv)),
            delete_item(ctx.chat_id as int, ctx.message_id as int),
        ]);
    }
}

/// What `New` leaves behind: one complete meal (an unlawful rating is simply
/// not stored) and its card under a poll button and confirm row.
pub open spec fn new_full_outcome(
    st0: State,
    st1: State,
    ctx: MessageContext,
    name: Seq<char>,
    rating: Option<u8>,
    tags: Option<Seq<Seq<char>>>,
    url: Option<Seq<char>>,
    batch: Seq<RequestKindView>,
) -> bool {
    let chat = ctx.chat_id as int;
    exists|mv: MealView, kbv: KeyboardView|
        {
            &&& #[trigger] new_meal_parts(mv, kbv)
            &&& mv.name == name
            &&& mv.rating == (match rating {
                Some(r) => if crate::rating_in_range(r) {
                    Some(r)
                } else {
                    None
                },
                None => None,
            })
            &&& mv.tags == (match tags {
                Some(t) => t,
                None => Seq::<Seq<char>>::empty(),
            })
            &&& mv.url == url
            &&& mv.photos == Seq::<Seq<char>>::empty()
            &&& mv.chat_id == chat
            &&& mv.user_id == ctx.user_id as int
            &&& mv.wf()
            &&& added(st0.meals@, st1.meals@, mv)
            &&& st1.plans == st0.plans
            &&& st1.polls == st0.polls
            &&& has_entry(st1.keyboards@, kbv.id)
            &&& kbv.chat_id == chat
            &&& kbv.buttons.len() == 2
            &&& kbv.buttons[0].len() == 1
            &&& (kbv.buttons[0][0].kind matches ButtonKindView::PollRating { meal_id } && meal_id
                == mv.id)
            &&& is_save_row(kbv.buttons[1], mv.id)
            &&& batch == seq![
                crate::meal::meal_card(chat, mv, None, Some(kbv)),
                delete_item(chat, ctx.message_id as int),
            ]
        }
}

fn new_full_command(
    state: &mut State,
    ctx: &MessageContext,
    meal_name: &String,
    rating: &Option<u8>,
    tags: &Option<Vec<String>>,
    url: &Option<String>,
    result: &mut RequestResult,
)
    requires
        old(state).wf(),
        old(result)@ == Seq::<RequestKindView>::empty(),
    ensures
        final(state).wf(),
        final(state).whitelist == old(state).whitelist,
        final(state).config == old(state).config,
        new_full_outcome(
            *old(state),
            *final(state),
            *ctx,
            meal_name@,
            *rating,
            (match tags {
                Some(t) => Some(t.deep_view()),
                None => None,
            }),
            (match url {
                Some(u) => Some(u@),
                None => None,
            }),
            final(result)@.push(delete_item(ctx.chat_id as int, ctx.message_id as int)),
        ),
{
    let mut meal = Meal::new(meal_name, ctx.chat_id, ctx.user_id);
    let stored_rating: Option<u8> = match rating {
        Some(r) => if 1 <= *r && *r <= 5 {
            Some(*r)
        } else {
            None
        },
        None => None,
    };
    meal.rate(stored_rating);
    meal.tag(
        match tags {
            Some(t) => Some(clone_string_vec(t)),
            None => None,
        },
    );
    meal.url(clone_opt_string(url));
    let ghost mv = meal@;
    proof {
        assert(mv.tags =~= (match tags {
            Some(t) => t.deep_view(),
            None => Seq::<Seq<char>>::empty(),
        }));
    }
    meal.save(state);
    let poll_button = Button::new(
        String::from_str("Rate with Poll"),
        ButtonKind::PollRating { meal_id: meal.id.clone() },
    );
    let ghost pbv = poll_button@;
    let mut row: Vec<Button> = Vec::new();
    let ghost er = row@;
    row.push(poll_button);
    proof {
        crate::button::lemma_row_views_push(er, row@.last());
        assert(row@ =~= er.push(row@.last()));
    }
    let ghost prv = row_views(row@);
    let srow = save_meal_button_row(&meal.id);
    let ghost srv = row_views(srow@);
    let mut rows: Vec<Vec<Button>> = Vec::new();
    let ghost eg = rows@;
    rows.push(row);
    proof {
        crate::button::lemma_rows_views_push(eg, rows@.last());
        assert(rows@ =~= eg.push(rows@.last()));
    }
    let ghost one = rows@;
    rows.push(srow);
    proof {
        crate::button::lemma_rows_views_push(one, rows@.last());
        assert(rows@ =~= one.push(rows@.last()));
    }
    let ghost grid = rows_views(rows@);
    proof {
        assert(grid =~= seq![prv, srv]);
        assert(prv =~= seq![pbv]);
    }
    let keyboard = Keyboard::new(ctx.chat_id).buttons(rows);
    let ghost kbv = keyboard@;
    proof {
        crate::dispatch::lemma_stamp_grid(grid, kbv.id);
        assert(kbv.buttons[0].len() == 1);
        assert(kbv.buttons[0][0].kind == pbv.kind);
        assert(crate::dispatch::is_save_row(kbv.buttons[1], mv.id)) by {
            crate::dispatch::lemma_stamp_preserves_save_row_pub(srv, kbv.id, mv.id);
        }
        assert forall|a: int, b: int|
            0 <= a < grid.len() && 0 <= b < grid[a].len() implies id_wf(
            (#[trigger] grid[a][b]).id,
        ) && grid[a][b].kind.wf() by {
            if a == 0 {
                assert(grid[a][b] == pbv);
            } else {
                assert(grid[a][b] == srv[b]);
            }
        }
        lemma_built_keyboard_wf(kbv, grid);
        assert(kbv.has_buttons());
    }
    let keyboard = keyboard.save(state);
    let card = meal.request(ctx.chat_id, None, Some(keyboard));
    result.add(card);
    proof {
        assert(new_meal_parts(mv, kbv));
        assert(result@.push(delete_item(ctx.chat_id as int, ctx.message_id as int)) =~= seq![
            crate::meal::meal_card(ctx.chat_id as int, mv, None, Some(kbv)),
            delete_item(ctx.chat_id as int, ctx.message_id as int),
        ]);
    }
}

/// A witness marker, constantly true: it claims nothing and only anchors the
/// trigger of the quantifier that picks one stored plan. The real
/// constraints on the plan stand beside it.
pub open spec fn chosen_plan(planv: PlanView) -> bool {
    true
}

/// What the plan command leaves behind, for every day count: out-of-range
/// requests are rejected before any sampling, and nothing is persisted.
pub open spec fn plan_outcome(
    st0: State,
    st1: State,
    ctx: MessageContext,
    days: Option<int>,
    batch: Seq<RequestKindView>,
) -> bool {
    let chat = ctx.chat_id as int;
    let mid = ctx.message_id as int;
    match days {
        Some(d) => if d < 2 {
            st1.meals == st0.meals && st1.plans == st0.plans && st1.polls == st0.polls
                && st1.keyboards == st0.keyboards && batch == notice_and_delete(
                chat,
                mid,
                Note::PlanTooShort,
            )
        } else if d > 10 {
            st1.meals == st0.meals && st1.plans == st0.plans && st1.polls == st0.polls
                && st1.keyboards == st0.keyboards && batch == notice_and_delete(
                chat,
                mid,
                Note::PlanTooLong,
            )
        } else {
            &&& st1.meals == st0.meals
            &&& st1.polls == st0.polls
            &&& exists|tail: Seq<RequestKindView>|
                #[trigger] plan_generated(st0, st1, chat, d, tail) && batch == tail.push(
                    delete_item(chat, mid),
                )
        },
        None => if exists|i: int|
            0 <= i < st0.plans@.len() && (#[trigger] st0.plans@[i]).vchat() == chat {
            exists|planv: PlanView|
                {
                    &&& #[trigger] chosen_plan(planv)
                    &&& st0.plans@.contains(planv)
                    &&& planv.vchat() == chat
                    &&& st1.meals == st0.meals
                    &&& st1.plans == st0.plans
                    &&& st1.polls == st0.polls
                    &&& if planv.days < 2 {
                        st1.keyboards == st0.keyboards && batch == notice_and_delete(
                            chat,
                            mid,
                            Note::PlanTooShort,
                        )
                    } else if planv.days > 10 {
                        st1.keyboards == st0.keyboards && batch == notice_and_delete(
                            chat,
                            mid,
                            Note::PlanTooLong,
                        )
                    } else {
                        exists|kbv: KeyboardView, bv: PollBuildView|
                            {
                                &&& #[trigger] plan_poll_pair(kbv, bv)
                                &&& has_entry(st1.keyboards@, kbv.id)
                                &&& is_plan_poll_grid(kbv.buttons, planv)
                                &&& kbv.chat_id == chat
                                &&& (bv.poll_kind matches PollKindView::Plan { plan_id: p } && p
                                    == planv.id)
                                &&& bv.chat_id == chat
                                &&& bv.keyboard_id == kbv.id
                                &&& batch == seq![
                                    RequestKindView::Poll {
                                        chat_id: chat,
                                        question: (MsgTextView::Plain { note: Note::PlanHeader }),
                                        answers: answers_of(planv.meals),
                                        reply_to: None,
                                        keyboard: Some(kbv),
                                        builder: bv,
                                    },
                                    delete_item(chat, mid),
                                ]
                            }
                    }
                }
        } else {
            st1.meals == st0.meals && st1.plans == st0.plans && st1.polls == st0.polls
                && st1.keyboards == st0.keyboards && batch == notice_and_delete(
                chat,
                mid,
                Note::PlanTooShort,
            )
        },
    }
}

fn plan_command(
    state: &mut State,
    ctx: &MessageContext,
    days_opt: &Option<usize>,
    result: &mut RequestResult,
)
    requires
        old(state).wf(),
        old(result)@ == Seq::<RequestKindView>::empty(),
    ensures
        final(state).wf(),
        final(state).whitelist == old(state).whitelist,
        final(state).config == old(state).config,
        plan_outcome(
            *old(state),
            *final(state),
            *ctx,
            (match *days_opt {
                Some(d) => Some(d as int),
                None => None,
            }),
            final(result)@.push(delete_item(ctx.chat_id as int, ctx.message_id as int)),
        ),
{
    let chat_id = ctx.chat_id;
    match days_opt {
        Some(d) => {
            if *d < 2 {
                result.message(chat_id, MsgText::Plain { note: Note::PlanTooShort }, None);
                proof {
                    assert(result@.push(delete_item(ctx.chat_id as int, ctx.message_id as int))
                        =~= notice_and_delete(
                        ctx.chat_id as int,
                        ctx.message_id as int,
                        Note::PlanTooShort,
                    ));
                }
            } else if *d > 10 {
                result.message(chat_id, MsgText::Plain { note: Note::PlanTooLong }, None);
                proof {
                    assert(result@.push(delete_item(ctx.chat_id as int, ctx.message_id as int))
                        =~= notice_and_delete(
                        ctx.chat_id as int,
                        ctx.message_id as int,
                        Note::PlanTooLong,
                    ));
                }
            } else {
                generate_plan(state, chat_id, *d, result);
                proof {
                    let tail = choose|tail: Seq<RequestKindView>|
                        #[trigger] plan_generated(
                            *old(state),
                            *state,
                            chat_id as int,
                            *d as int,
                            tail,
                        ) && result@ == Seq::<RequestKindView>::empty() + tail;
                    assert(result@ =~= tail);
                    assert(result@.push(delete_item(ctx.chat_id as int, ctx.message_id as int))
                        == tail.push(delete_item(ctx.chat_id as int, ctx.message_id as int)));
                }
            }
        },
        None => {
            match state.first_plan(chat_id) {
                Some(plan) => {
                    let ghost planv = plan@;
                    proof {
                        let k = choose|k: int|
                            0 <= k < state.plans@.len() && state.plans@[k] == planv;
                        assert(state.plans@[k].vchat() == chat_id as int);
                        assert(state.plans@[k].wf());
                        assert(chosen_plan(planv));
                    }
                    if plan.days < 2 {
                        result.message(
                            chat_id,
                            MsgText::Plain { note: Note::PlanTooShort },
                            None,
                        );
                        proof {
                            assert(result@.push(
                                delete_item(ctx.chat_id as int, ctx.message_id as int),
                            ) =~= notice_and_delete(
                                ctx.chat_id as int,
                                ctx.message_id as int,
                                Note::PlanTooShort,
                            ));
                        }
                    } else if plan.days > 10 {
                        result.message(
                            chat_id,
                            MsgText::Plain { note: Note::PlanTooLong },
                            None,
                        );
                        proof {
                            assert(result@.push(
                                delete_item(ctx.chat_id as int, ctx.message_id as int),
                            ) =~= notice_and_delete(
                                ctx.chat_id as int,
                                ctx.message_id as int,
                                Note::PlanTooLong,
                            ));
                        }
                    } else {
                        let ghost pre = *state;
                        let ghost b0 = result@;
                        announce_plan_poll(state, chat_id, &plan, result);
                        proof {
                            let (kbv, bv) = choose|kbv: KeyboardView, bv: PollBuildView|
                                {
                                    &&& keyboard_registered(pre, *state, kbv, chat_id as int)
                                    &&& is_plan_poll_grid(kbv.buttons, planv)
                                    &&& #[trigger] plan_poll_pair(kbv, bv)
                                    &&& (bv.poll_kind matches PollKindView::Plan { plan_id: p }
                                        && p == planv.id)
                                    &&& bv.chat_id == chat_id as int
                                    &&& bv.keyboard_id == kbv.id
                                    &&& bv.is_canceled == false
                                    &&& id_wf(bv.id)
                                    &&& result@ == b0 + seq![
                                        RequestKindView::Poll {
                                            chat_id: chat_id as int,
                                            question: (MsgTextView::Plain {
                                                note: Note::PlanHeader,
                                            }),
                                            answers: answers_of(planv.meals),
                                            reply_to: None,
                                            keyboard: Some(kbv),
                                            builder: bv,
                                        },
                                    ]
                                };
                            assert(has_entry(state.keyboards@, kbv.id));
                            assert(result@.push(
                                delete_item(ctx.chat_id as int, ctx.message_id as int),
                            ) =~= seq![
                                RequestKindView::Poll {
                                    chat_id: ctx.chat_id as int,
                                    question: (MsgTextView::Plain { note: Note::PlanHeader }),
                                    answers: answers_of(planv.meals),
                                    reply_to: None,
                                    keyboard: Some(kbv),
                                    builder: bv,
                                },
                                delete_item(ctx.chat_id as int, ctx.message_id as int),
                            ]);
                        }
                    }
                },
                None => {
                    result.message(chat_id, MsgText::Plain { note: Note::PlanTooShort }, None);
                    proof {
                        assert(result@.push(delete_item(ctx.chat_id as int, ctx.message_id as int))
                            =~= notice_and_delete(
                            ctx.chat_id as int,
                            ctx.message_id as int,
                            Note::PlanTooShort,
                        ));
                    }
                },
            }
        },
    }
}

/// What the list command leaves behind: the clickable list under a fresh
/// keyboard, or a note that nothing is saved yet.
pub open spec fn list_outcome(
    st0: State,
    st1: State,
    ctx: MessageContext,
    batch: Seq<RequestKindView>,
) -> bool {
    let chat = ctx.chat_id as int;
    let found = st0.meals@.filter(crate::store::by_chat(chat));
    &&& st1.meals == st0.meals
    &&& st1.plans == st0.plans
    &&& st1.polls == st0.polls
    &&& if found.len() > 0 {
        exists|kbv: KeyboardView|
            {
                &&& #[trigger] keyboard_registered(st0, st1, kbv, chat)
                &&& is_list_grid(kbv.buttons, found)
                &&& batch == seq![
                    RequestKindView::Message {
                        chat_id: chat,
                        text: (MsgTextView::Plain { note: Note::ListHeader }),
                        keyboard: Some(kbv),
                        notify: false,
                    },
                    delete_item(chat, ctx.message_id as int),
                ]
            }
    } else {
        st1.keyboards == st0.keyboards && batch == notice_and_delete(
            chat,
            ctx.message_id as int,
            Note::NoMealsSaved,
        )
    }
}

fn list_command(state: &mut State, ctx: &MessageContext, result: &mut RequestResult)
    requires
        old(state).wf(),
        old(result)@ == Seq::<RequestKindView>::empty(),
    ensures
        final(state).wf(),
        final(state).whitelist == old(state).whitelist,
        final(state).config == old(state).config,
        list_outcome(
            *old(state),
            *final(state),
            *ctx,
            final(result)@.push(delete_item(ctx.chat_id as int, ctx.message_id as int)),
        ),
{
    let ghost found = old(state).meals@.filter(crate::store::by_chat(ctx.chat_id as int));
    let buttons = meal_buttons(state, ctx.chat_id);
    if buttons.len() > 0 {
        let ghost grid = rows_views(buttons@);
        proof {
            assert(found.len() > 0) by {
                if found.len() == 0 {
                    assert(buttons@.len() == 0);
                }
            }
        }
        let keyboard = Keyboard::new(ctx.chat_id).buttons(buttons);
        let ghost kbv = keyboard@;
        proof {
            crate::dispatch::lemma_stamp_grid(grid, kbv.id);
            assert(is_list_grid(kbv.buttons, found)) by {
                assert forall|a: int, b: int|
                    0 <= a < kbv.buttons.len() && 0 <= b < kbv.buttons[a].len() implies {
                    &&& 0 <= 4 * a + b < found.len()
                    &&& ((#[trigger] kbv.buttons[a][b]).kind
                        matches ButtonKindView::DisplayListMeal { meal_id } && meal_id == found[4
                        * a + b].id)
                    &&& kbv.buttons[a][b].text == found[4 * a + b].name
                } by {
                    assert(kbv.buttons[a][b].kind == grid[a][b].kind);
                    assert(kbv.buttons[a][b].text == grid[a][b].text);
                }
            }
            assert forall|a: int, b: int|
                0 <= a < grid.len() && 0 <= b < grid[a].len() implies id_wf(
                (#[trigger] grid[a][b]).id,
            ) && grid[a][b].kind.wf() by {}
            lemma_built_keyboard_wf(kbv, grid);
            assert(grid[0].len() > 0);
            assert(kbv.buttons[0].len() == grid[0].len());
            assert(kbv.has_buttons());
        }
        let keyboard = keyboard.save(state);
        proof {
            assert(keyboard_registered(*old(state), *state, kbv, ctx.chat_id as int));
        }
        result.message(ctx.chat_id, MsgText::Plain { note: Note::ListHeader }, Some(keyboard));
        proof {
            assert(result@.push(delete_item(ctx.chat_id as int, ctx.message_id as int)) =~= seq![
                RequestKindView::Message {
                    chat_id: ctx.chat_id as int,
                    text: (MsgTextView::Plain { note: Note::ListHeader }),
                    keyboard: Some(kbv),
                    notify: false,
                },
                delete_item(ctx.chat_id as int, ctx.message_id as int),
            ]);
        }
    } else {
        result.message(ctx.chat_id, MsgText::Plain { note: Note::NoMealsSaved }, None);
        proof {
            assert(result@.push(delete_item(ctx.chat_id as int, ctx.message_id as int))
                =~= notice_and_delete(
                ctx.chat_id as int,
                ctx.message_id as int,
                Note::NoMealsSaved,
            ));
        }
    }
}

/// The model of a [`PhotoCommand`].
pub enum PhotoCommandView {
    New { meal_name: Seq<char>, rating: Option<u8>, tags: Option<Seq<Seq<char>>>, url: Option<Seq<char>> },
    Photo(Seq<char>),
}

/// A command that arrived attached to a photo. The photo itself is fetched by
/// the transport layer; the engine only ever sees its file id.
pub enum PhotoCommand {
    New { meal_name: String, rating: Option<u8>, tags: Option<Vec<String>>, url: Option<String> },
    Photo(String),
}

impl View for PhotoCommand {
    type V = PhotoCommandView;

    open spec fn view(&self) -> PhotoCommandView {
        match self {
            PhotoCommand::New { meal_name, rating, tags, url } => PhotoCommandView::New {
                meal_name: meal_name@,
                rating: *rating,
                tags: match tags {
                    Some(t) => Some(t.deep_view()),
                    None => None,
                },
                url: match url {
                    Some(u) => Some(u@),
                    None => None,
                },
            },
            PhotoCommand::Photo(name) => PhotoCommandView::Photo(name@),
        }
    }
}

/// What one photo command leaves behind, for every whitelist outcome: a new
/// meal carrying the photo, or the photo attached to every matching meal.
pub open spec fn photo_command_outcome(
    st0: State,
    st1: State,
    ctx: MessageContext,
    cmd: PhotoCommandView,
    photo_id: Seq<char>,
    batch: Seq<RequestKindView>,
) -> bool {
    let chat = ctx.chat_id as int;
    match ctx.username {
        None => st1 == st0 && batch == seq![
            RequestKindView::Message {
                chat_id: chat,
                text: (MsgTextView::Plain { note: Note::NoUserFound }),
                keyboard: None,
                notify: false,
            },
            delete_item(chat, ctx.message_id as int),
        ],
        Some(u) => if !has_user(st0.whitelist@, u@) {
            st1 == st0 && batch == seq![
                RequestKindView::Message {
                    chat_id: chat,
                    text: (MsgTextView::Plain { note: Note::UserNotWhitelisted }),
                    keyboard: None,
                    notify: false,
                },
                delete_item(chat, ctx.message_id as int),
            ]
        } else {
            match cmd {
                PhotoCommandView::New { meal_name, rating, tags, url } => exists|
                    mv: MealView,
                    kbv: KeyboardView,
                |
                    {
                        &&& #[trigger] new_meal_parts(mv, kbv)
                        &&& mv.name == meal_name
                        &&& mv.rating == (match rating {
                            Some(r) => if crate::rating_in_range(r) {
                                Some(r)
                            } else {
                                None
                            },
                            None => None,
                        })
                        &&& mv.tags == (match tags {
                            Some(t) => t,
                            None => Seq::<Seq<char>>::empty(),
                        })
                        &&& mv.url == url
                        &&& mv.photos == seq![photo_id]
                        &&& mv.chat_id == chat
                        &&& mv.wf()
                        &&& added(st0.meals@, st1.meals@, mv)
                        &&& st1.plans == st0.plans
                        &&& st1.polls == st0.polls
                        &&& has_entry(st1.keyboards@, kbv.id)
                        &&& batch == seq![
                            crate::meal::meal_card(chat, mv, None, Some(kbv)),
                            delete_item(chat, ctx.message_id as int),
                        ]
                    },
                PhotoCommandView::Photo(name) => {
                    &&& meals_edited(
                        st0.meals@,
                        st1.meals@,
                        chat,
                        upper_of(name),
                        MealEditView::AddPhoto(photo_id),
                    )
                    &&& st1.plans == st0.plans
                    &&& st1.polls == st0.polls
                    &&& st1.keyboards == st0.keyboards
                    &&& batch == (if st0.meals@.filter(name_matches(chat, upper_of(name))).len()
                        == 0 {
                        seq![
                            RequestKindView::Message {
                                chat_id: chat,
                                text: (MsgTextView::Plain { note: Note::NoMealWithName }),
                                keyboard: None,
                                notify: false,
                            },
                        ]
                    } else {
                        Seq::new(
                            st0.meals@.filter(name_matches(chat, upper_of(name))).len(),
                            |k: int| RequestKindView::Message {
                                chat_id: chat,
                                text: (MsgTextView::MealWith {
                                    meal: st0.meals@.filter(name_matches(chat, upper_of(name)))[k],
                                    note: Note::SavedPhoto,
                                }),
                                keyboard: None,
                                notify: false,
                            },
                        )
                    }).push(delete_item(chat, ctx.message_id as int))
                },
            }
        },
    }
}

impl PhotoCommand {
    /// Runs one photo command: the transport has already downloaded the photo
    /// and hands over its file id.
    pub fn run(
        command: &PhotoCommand,
        photo_id: &String,
        state: &mut State,
        ctx: &MessageContext,
    ) -> (r: RequestResult)
        requires
            old(state).wf(),
        ensures
            final(state).wf(),
            final(state).whitelist == old(state).whitelist,
            final(state).config == old(state).config,
            photo_command_outcome(
                *old(state),
                *final(state),
                *ctx,
                command@,
                photo_id@,
                r@,
            ),
    {
        let mut result = RequestResult::new();
        let chat_id = ctx.chat_id;
        let username = match &ctx.username {
            Some(u) => u.clone(),
            None => {
                result.message(chat_id, MsgText::Plain { note: Note::NoUserFound }, None);
                result.add(
                    RequestKind::DeleteMessage { chat_id, message_id: ctx.message_id },
                );
                proof {
                    assert(result@ =~= seq![
                        RequestKindView::Message {
                            chat_id: chat_id as int,
                            text: (MsgTextView::Plain { note: Note::NoUserFound }),
                            keyboard: None,
                            notify: false,
                        },
                        delete_item(chat_id as int, ctx.message_id as int),
                    ]);
                }
                return result;
            },
        };
        if !state.is_whitelisted(&username) {
            result.message(chat_id, MsgText::Plain { note: Note::UserNotWhitelisted }, None);
            result.add(
                RequestKind::DeleteMessage { chat_id, message_id: ctx.message_id },
            );
            proof {
                assert(result@ =~= seq![
                    RequestKindView::Message {
                        chat_id: chat_id as int,
                        text: (MsgTextView::Plain { note: Note::UserNotWhitelisted }),
                        keyboard: None,
                        notify: false,
                    },
                    delete_item(chat_id as int, ctx.message_id as int),
                ]);
            }
            return result;
        }
        match command {
            PhotoCommand::New { meal_name, rating, tags, url } => {
                let mut meal = Meal::new(meal_name, ctx.chat_id, ctx.user_id);
                let stored_rating: Option<u8> = match rating {
                    Some(r) => if 1 <= *r && *r <= 5 {
                        Some(*r)
                    } else {
                        None
                    },
                    None => None,
                };
                meal.rate(stored_rating);
                meal.tag(
                    match tags {
                        Some(t) => Some(clone_string_vec(t)),
                        None => None,
                    },
                );
                meal.url(clone_opt_string(url));
                meal.photo(photo_id.clone());
                let ghost mv = meal@;
                proof {
                    assert(mv.tags =~= (match tags {
                        Some(t) => t.deep_view(),
                        None => Seq::<Seq<char>>::empty(),
                    }));
                    assert(mv.photos =~= seq![photo_id@]);
                }
                meal.save(state);
                let cancel_button = Button::new(
                    String::from_str("CANCEL"),
                    ButtonKind::DeleteMessage,
                );
                let ghost cbv = cancel_button@;
                let mut row: Vec<Button> = Vec::new();
                let ghost er = row@;
                row.push(cancel_button);
                proof {
                    crate::button::lemma_row_views_push(er, row@.last());
                    assert(row@ =~= er.push(row@.last()));
                }
                let ghost rv = row_views(row@);
                let mut rows: Vec<Vec<Button>> = Vec::new();
                let ghost eg = rows@;
                rows.push(row);
                proof {
                    crate::button::lemma_rows_views_push(eg, rows@.last());
                    assert(rows@ =~= eg.push(rows@.last()));
                }
                let ghost grid = rows_views(rows@);
                proof {
                    assert(grid =~= seq![rv]);
                    assert(rv =~= seq![cbv]);
                }
                let keyboard = Keyboard::new(ctx.chat_id).buttons(rows);
                let ghost kbv = keyboard@;
                proof {
                    crate::dispatch::lemma_stamp_grid(grid, kbv.id);
                    assert forall|a: int, b: int|
                        0 <= a < grid.len() && 0 <= b < grid[a].len() implies id_wf(
                        (#[trigger] grid[a][b]).id,
                    ) && grid[a][b].kind.wf() by {
                        assert(grid[a][b] == cbv);
                    }
                    lemma_built_keyboard_wf(kbv, grid);
                    assert(kbv.buttons[0].len() == 1);
                    assert(kbv.has_buttons());
                }
                let keyboard = keyboard.save(state);
                let card = meal.request(ctx.chat_id, None, Some(keyboard));
                result.add(card);
                result.add(
                    RequestKind::DeleteMessage { chat_id, message_id: ctx.message_id },
                );
                proof {
                    assert(new_meal_parts(mv, kbv));
                    assert(result@ =~= seq![
                        crate::meal::meal_card(ctx.chat_id as int, mv, None, Some(kbv)),
                        delete_item(chat_id as int, ctx.message_id as int),
                    ]);
                }
            },
            PhotoCommand::Photo(name) => {
                edit_meals_by_name(
                    state,
                    chat_id,
                    ctx.message_id,
                    name,
                    &MealEdit::AddPhoto(photo_id.clone()),
                    Note::SavedPhoto,
                    &mut result,
                );
                result.add(
                    RequestKind::DeleteMessage { chat_id, message_id: ctx.message_id },
                );
            },
        }
        result
    }

    /// Runs this photo command; see [`PhotoCommand::run`].
    pub fn execute(
        &self,
        photo_id: &String,
        state: &mut State,
        ctx: &MessageContext,
    ) -> (r: RequestResult)
        requires
            old(state).wf(),
        ensures
            final(state).wf(),
            final(state).whitelist == old(state).whitelist,
            final(state).config == old(state).config,
            photo_command_outcome(
                *old(state),
                *final(state),
                *ctx,
                self@,
                photo_id@,
                r@,
            ),
    {
        PhotoCommand::run(self, photo_id, state, ctx)
    }
}

} // verus!
