use vstd::prelude::*;
use crate::ident::{fresh_id, id_wf};
use crate::rating_in_range;
use crate::store::{EntryView, HasId};
use crate::text::{clone_opt_string, clone_string_vec};

verus! {

/// The model of a [`Meal`].
pub struct MealView {
    pub name: Seq<char>,
    pub rating: Option<u8>,
    pub id: Seq<char>,
    pub url: Option<Seq<char>>,
    pub tags: Seq<Seq<char>>,
    pub photos: Seq<Seq<char>>,
    pub chat_id: int,
    pub user_id: int,
}

impl EntryView for MealView {
    open spec fn vid(&self) -> Seq<char> {
        self.id
    }

    open spec fn vchat(&self) -> int {
        self.chat_id
    }
}

impl MealView {
    /// A meal's weight in plan sampling: its rating, or the baseline weight of
    /// one for a meal that was never rated.
    pub open spec fn weight(&self) -> int {
        match self.rating {
            Some(r) => r as int,
            None => 1,
        }
    }

    pub open spec fn wf(&self) -> bool {
        &&& id_wf(self.id)
        &&& (self.rating matches Some(r) ==> rating_in_range(r))
    }
}

/// A catalogued meal. The rating is the one field the engine itself mutates;
/// the rest is filled in by the command surface.
pub struct Meal {
    pub name: String,
    pub rating: Option<u8>,
    pub id: String,
    pub url: Option<String>,
    pub tags: Vec<String>,
    pub photos: Vec<String>,
    pub chat_id: i64,
    pub user_id: i32,
}

impl View for Meal {
    type V = MealView;

    open spec fn view(&self) -> MealView {
        MealView {
            name: self.name@,
            rating: self.rating,
            id: self.id@,
            url: match self.url {
                Some(u) => Some(u@),
                None => None,
            },
            tags: self.tags.deep_view(),
            photos: self.photos.deep_view(),
            chat_id: self.chat_id as int,
            user_id: self.user_id as int,
        }
    }
}

impl HasId for Meal {
    fn id(&self) -> (r: String)
        ensures
            r@ == self@.vid(),
    {
        self.id.clone()
    }

    fn chat_id(&self) -> (r: i64)
        ensures
            r as int == self@.vchat(),
    {
        self.chat_id
    }

    fn duplicate(&self) -> (r: Self)
        ensures
            r@ == self@,
    {
        let r = Meal {
            name: self.name.clone(),
            rating: self.rating,
            id: self.id.clone(),
            url: clone_opt_string(&self.url),
            tags: clone_string_vec(&self.tags),
            photos: clone_string_vec(&self.photos),
            chat_id: self.chat_id,
            user_id: self.user_id,
        };
        r
    }
}

impl Meal {
    /// A fresh meal: no rating yet, no tags, no reference, no photos.
    pub fn new(name: &String, chat_id: i64, user_id: i32) -> (r: Self)
        ensures
            r@.name == name@,
            r@.rating is None,
            r@.url is None,
            r@.tags == Seq::<Seq<char>>::empty(),
            r@.photos == Seq::<Seq<char>>::empty(),
            r@.chat_id == chat_id as int,
            r@.user_id == user_id as int,
            r@.wf(),
    {
        let r = Meal {
            chat_id,
            user_id,
            id: fresh_id(),
            name: name.clone(),
            rating: None,
            url: None,
            tags: Vec::new(),
            photos: Vec::new(),
        };
        proof {
            assert(r@.tags =~= Seq::<Seq<char>>::empty());
            assert(r@.photos =~= Seq::<Seq<char>>::empty());
        }
        r
    }

    /// Sets the rating. A rating, when there is one, is always a star level.
    pub fn rate(&mut self, rating: Option<u8>)
        requires
            rating matches Some(r) ==> rating_in_range(r),
        ensures
            final(self)@ == (MealView { rating, ..old(self)@ }),
    {
        self.rating = rating;
    }

    /// Replaces the name.
    pub fn rename(&mut self, name: String)
        ensures
            final(self)@ == (MealView { name: name@, ..old(self)@ }),
    {
        self.name = name;
    }

    /// Appends the given tags, keeping the existing ones.
    pub fn tag(&mut self, tags: Option<Vec<String>>)
        ensures
            final(self)@ == (MealView {
                tags: old(self)@.tags + (match tags {
                    Some(t) => t.deep_view(),
                    None => Seq::<Seq<char>>::empty(),
                }),
                ..old(self)@
            }),
    {
        match tags {
            Some(mut t) => {
                let ghost added = t.deep_view();
                self.tags.append(&mut t);
                proof {
                    assert(self@.tags =~= old(self)@.tags + added);
                }
            },
            None => {
                proof {
                    assert(self@.tags =~= old(self)@.tags + Seq::<Seq<char>>::empty());
                }
            },
        }
    }

    /// Replaces the tags outright.
    pub fn set_tags(&mut self, tags: Vec<String>)
        ensures
            final(self)@ == (MealView { tags: tags.deep_view(), ..old(self)@ }),
    {
        self.tags = tags;
    }

    /// Sets or clears the reference link.
    pub fn url(&mut self, url: Option<String>)
        ensures
            final(self)@ == (MealView {
                url: match url {
                    Some(u) => Some(u@),
                    None => None,
                },
                ..old(self)@
            }),
    {
        self.url = url;
    }

    /// Records one more photo by its file id.
    pub fn photo(&mut self, photo: String)
        ensures
            final(self)@ == (MealView {
                photos: old(self)@.photos.push(photo@),
                ..old(self)@
            }),
    {
        let ghost p = photo@;
        self.photos.push(photo);
        proof {
            assert(self@.photos =~= old(self)@.photos.push(p));
        }
    }
}

/// The single outbound card that shows a meal: a photo with a caption when
/// the meal has photos, a plain message otherwise.
pub open spec fn meal_card(
    chat: int,
    m: MealView,
    sub: Option<crate::request::Note>,
    kb: Option<crate::keyboard::KeyboardView>,
) -> crate::request::RequestKindView {
    let text = match sub {
        Some(n) => crate::request::MsgTextView::MealWith { meal: m, note: n },
        None => crate::request::MsgTextView::MealOnly { meal: m },
    };
    if m.photos.len() > 0 {
        crate::request::RequestKindView::Photo {
            chat_id: chat,
            photo_id: m.photos.last(),
            caption: text,
            keyboard: kb,
        }
    } else {
        crate::request::RequestKindView::Message {
            chat_id: chat,
            text: text,
            keyboard: kb,
            notify: false,
        }
    }
}

impl Meal {
    /// Files the meal in the catalogue under its own id.
    pub fn save(&self, state: &mut crate::state::State)
        requires
            old(state).wf(),
            self@.wf(),
        ensures
            final(state).wf(),
            crate::store::added(old(state).meals@, final(state).meals@, self@),
            final(state).plans == old(state).plans,
            final(state).polls == old(state).polls,
            final(state).keyboards == old(state).keyboards,
            final(state).whitelist == old(state).whitelist,
            final(state).config == old(state).config,
    {
        let dup = self.duplicate();
        let ghost s0 = old(state).meals@;
        state.meals.add(dup);
        proof {
            if crate::store::has_entry(s0, self@.vid()) {
                let i = choose|i: int|
                    0 <= i < s0.len() && s0[i].vid() == self@.vid() && state.meals@ == s0.update(
                        i,
                        self@,
                    );
                assert forall|p: int| 0 <= p < state.meals@.len() implies (
                #[trigger] state.meals@[p]).wf() by {
                    if p != i {
                        assert(state.meals@[p] == s0[p]);
                    }
                }
            } else {
                assert forall|p: int| 0 <= p < state.meals@.len() implies (
                #[trigger] state.meals@[p]).wf() by {
                    if p < s0.len() {
                        assert(state.meals@[p] == s0[p]);
                    } else {
                        assert(state.meals@[p] == self@);
                    }
                }
            }
        }
    }

    /// The card that shows this meal in the chat, optionally with a note and
    /// a keyboard under it.
    pub fn request(
        &self,
        chat_id: i64,
        sub_text: Option<crate::request::Note>,
        keyboard: Option<crate::keyboard::Keyboard>,
    ) -> (r: crate::request::RequestKind)
        ensures
            r@ == meal_card(
                chat_id as int,
                self@,
                sub_text,
                crate::request::opt_keyboard_view(keyboard),
            ),
    {
        let text = match sub_text {
            Some(n) => crate::request::MsgText::MealWith { meal: self.duplicate(), note: n },
            None => crate::request::MsgText::MealOnly { meal: self.duplicate() },
        };
        if self.photos.len() > 0 {
            let photo_id = self.photos[self.photos.len() - 1].clone();
            proof {
                assert(photo_id@ == self@.photos.last());
            }
            crate::request::RequestKind::Photo {
                chat_id,
                photo_id,
                caption: text,
                keyboard,
            }
        } else {
            crate::request::RequestKind::Message { chat_id, text, keyboard, notify: false }
        }
    }
}

} // verus!
