use vstd::prelude::*;
use crate::keyboard::{Keyboard, KeyboardView};
use crate::meal::{Meal, MealView};
use crate::poll::{Poll, PollBuildStepOne, PollBuildView, PollView};

verus! {

/// A fixed user-facing notice. The engine decides which notice goes out; the
/// transport layer owns the exact wording.
#[derive(Clone, Copy, PartialEq, Eq, Structural, Debug)]
pub enum Note {
    Saved,
    NoMealSaved,
    MealNotFoundToSave,
    Removed,
    NoMealToDelete,
    MealNotFound,
    NoMealWithName,
    ChangeRatingOrSave,
    NoMealToRate,
    HowDidItTaste,
    PlanHeader,
    NoPlanExists,
    ListHeader,
    NoMealsSaved,
    Outdated,
    PollCanceled,
    Voting,
    Deleted,
    NotDeleted,
    SavedPhoto,
    Renamed,
    ChangedRating,
    AddedTags,
    RemovedTags,
    ChangedUrl,
    PlanTooShort,
    PlanTooLong,
    UserNotWhitelisted,
    NoUserFound,
    WrongPassword,
    UserWhitelisted,
    Help,
    Version,
}

/// The model of a [`MsgText`].
pub enum MsgTextView {
    MealWith { meal: MealView, note: Note },
    MealOnly { meal: MealView },
    Plain { note: Note },
    RateQuestion { meal_name: Seq<char> },
}

/// What an outbound message says: a meal card, optionally with a notice under
/// it, a bare notice, or the question line of a rating poll.
pub enum MsgText {
    MealWith { meal: Meal, note: Note },
    MealOnly { meal: Meal },
    Plain { note: Note },
    RateQuestion { meal_name: String },
}

impl View for MsgText {
    type V = MsgTextView;

    open spec fn view(&self) -> MsgTextView {
        match self {
            MsgText::MealWith { meal, note } => MsgTextView::MealWith { meal: meal@, note: *note },
            MsgText::MealOnly { meal } => MsgTextView::MealOnly { meal: meal@ },
            MsgText::Plain { note } => MsgTextView::Plain { note: *note },
            MsgText::RateQuestion { meal_name } => MsgTextView::RateQuestion {
                meal_name: meal_name@,
            },
        }
    }
}

/// The model of a [`RequestKind`].
pub enum RequestKindView {
    Message {
        chat_id: int,
        text: MsgTextView,
        keyboard: Option<KeyboardView>,
        notify: bool,
    },
    Photo { chat_id: int, photo_id: Seq<char>, caption: MsgTextView, keyboard: Option<KeyboardView> },
    EditMessage { chat_id: int, message_id: int, text: MsgTextView, keyboard: Option<KeyboardView> },
    EditCaption {
        chat_id: int,
        message_id: int,
        caption: MsgTextView,
        keyboard: Option<KeyboardView>,
    },
    EditInlineMessage { inline_message_id: Seq<char>, text: MsgTextView, keyboard: Option<KeyboardView> },
    EditReplyMarkup { chat_id: int, message_id: int, keyboard: Option<KeyboardView> },
    Poll {
        chat_id: int,
        question: MsgTextView,
        answers: Seq<Seq<char>>,
        reply_to: Option<int>,
        keyboard: Option<KeyboardView>,
        builder: PollBuildView,
    },
    StopPoll { chat_id: int, message_id: int, poll: Option<PollView> },
    DeleteMessage { chat_id: int, message_id: int },
    CallbackAnswer { callback_id: Seq<char>, note: Note, show_alert: bool },
    Pin { chat_id: int, message_id: int },
}

/// One pending outbound effect: everything the transport needs to perform it,
/// as plain values.
pub enum RequestKind {
    Message { chat_id: i64, text: MsgText, keyboard: Option<Keyboard>, notify: bool },
    Photo { chat_id: i64, photo_id: String, caption: MsgText, keyboard: Option<Keyboard> },
    EditMessage { chat_id: i64, message_id: i32, text: MsgText, keyboard: Option<Keyboard> },
    EditCaption { chat_id: i64, message_id: i32, caption: MsgText, keyboard: Option<Keyboard> },
    EditInlineMessage { inline_message_id: String, text: MsgText, keyboard: Option<Keyboard> },
    EditReplyMarkup { chat_id: i64, message_id: i32, keyboard: Option<Keyboard> },
    Poll {
        chat_id: i64,
        question: MsgText,
        answers: Vec<String>,
        reply_to: Option<i32>,
        keyboard: Option<Keyboard>,
        builder: PollBuildStepOne,
    },
    StopPoll { chat_id: i64, message_id: i32, poll: Option<Poll> },
    DeleteMessage { chat_id: i64, message_id: i32 },
    CallbackAnswer { callback_id: String, note: Note, show_alert: bool },
    Pin { chat_id: i64, message_id: i32 },
}

/// The model of an optional keyboard attachment.
pub open spec fn opt_keyboard_view(k: Option<Keyboard>) -> Option<KeyboardView> {
    match k {
        Some(kb) => Some(kb@),
        None => None,
    }
}

impl View for RequestKind {
    type V = RequestKindView;

    open spec fn view(&self) -> RequestKindView {
        match self {
            RequestKind::Message { chat_id, text, keyboard, notify } => RequestKindView::Message {
                chat_id: *chat_id as int,
                text: text@,
                keyboard: opt_keyboard_view(*keyboard),
                notify: *notify,
            },
            RequestKind::Photo { chat_id, photo_id, caption, keyboard } => RequestKindView::Photo {
                chat_id: *chat_id as int,
                photo_id: photo_id@,
                caption: caption@,
                keyboard: opt_keyboard_view(*keyboard),
            },
            RequestKind::EditMessage { chat_id, message_id, text, keyboard } => RequestKindView::EditMessage {
                chat_id: *chat_id as int,
                message_id: *message_id as int,
                text: text@,
                keyboard: opt_keyboard_view(*keyboard),
            },
            RequestKind::EditCaption { chat_id, message_id, caption, keyboard } => RequestKindView::EditCaption {
                chat_id: *chat_id as int,
                message_id: *message_id as int,
                caption: caption@,
                keyboard: opt_keyboard_view(*keyboard),
            },
            RequestKind::EditInlineMessage { inline_message_id, text, keyboard } => RequestKindView::EditInlineMessage {
                inline_message_id: inline_message_id@,
                text: text@,
                keyboard: opt_keyboard_view(*keyboard),
            },
            RequestKind::EditReplyMarkup { chat_id, message_id, keyboard } => RequestKindView::EditReplyMarkup {
                chat_id: *chat_id as int,
                message_id: *message_id as int,
                keyboard: opt_keyboard_view(*keyboard),
            },
            RequestKind::Poll { chat_id, question, answers, reply_to, keyboard, builder } => RequestKindView::Poll {
                chat_id: *chat_id as int,
                question: question@,
                answers: answers.deep_view(),
                reply_to: match reply_to {
                    Some(m) => Some(*m as int),
                    None => None,
                },
                keyboard: opt_keyboard_view(*keyboard),
                builder: builder@,
            },
            RequestKind::StopPoll { chat_id, message_id, poll } => RequestKindView::StopPoll {
                chat_id: *chat_id as int,
                message_id: *message_id as int,
                poll: match poll {
                    Some(p) => Some(p@),
                    None => None,
                },
            },
            RequestKind::DeleteMessage { chat_id, message_id } => RequestKindView::DeleteMessage {
                chat_id: *chat_id as int,
                message_id: *message_id as int,
            },
            RequestKind::CallbackAnswer { callback_id, note, show_alert } => RequestKindView::CallbackAnswer {
                callback_id: callback_id@,
                note: *note,
                show_alert: *show_alert,
            },
            RequestKind::Pin { chat_id, message_id } => RequestKindView::Pin {
                chat_id: *chat_id as int,
                message_id: *message_id as int,
            },
        }
    }
}

/// The models of a sequence of batch items.
pub open spec fn request_views(s: Seq<RequestKind>) -> Seq<RequestKindView> {
    s.map_values(|r: RequestKind| r@)
}

pub proof fn lemma_request_views_push(s: Seq<RequestKind>, r: RequestKind)
    ensures
        request_views(s.push(r)) == request_views(s).push(r@),
{
    assert(request_views(s.push(r)) =~= request_views(s).push(r@));
}

/// An ordered list of pending outbound effects, built by one dispatch and
/// flushed to the transport afterwards.
pub struct RequestResult {
    pub requests: Vec<RequestKind>,
}

impl View for RequestResult {
    type V = Seq<RequestKindView>;

    open spec fn view(&self) -> Seq<RequestKindView> {
        request_views(self.requests@)
    }
}

impl RequestResult {
    /// An empty batch.
    pub fn new() -> (r: Self)
        ensures
            r@ == Seq::<RequestKindView>::empty(),
    {
        let r = RequestResult { requests: Vec::new() };
        proof {
            assert(r@ =~= Seq::<RequestKindView>::empty());
        }
        r
    }

    /// Appends one effect; the batch keeps its order.
    pub fn add(&mut self, request: RequestKind)
        ensures
            final(self)@ == old(self)@.push(request@),
    {
        let ghost prevv = self.requests@;
        self.requests.push(request);
        proof {
            lemma_request_views_push(prevv, self.requests@.last());
            assert(self.requests@ =~= prevv.push(self.requests@.last()));
        }
    }

    /// Appends a plain, un-notifying message send.
    pub fn message(&mut self, chat_id: i64, text: MsgText, keyboard: Option<Keyboard>)
        ensures
            final(self)@ == old(self)@.push(
                RequestKindView::Message {
                    chat_id: chat_id as int,
                    text: text@,
                    keyboard: opt_keyboard_view(keyboard),
                    notify: false,
                },
            ),
    {
        let ghost kv = opt_keyboard_view(keyboard);
        let ghost tv = text@;
        self.add(RequestKind::Message { chat_id, text, keyboard, notify: false });
    }

    pub fn len(&self) -> (r: usize)
        ensures
            r == self@.len(),
    {
        self.requests.len()
    }

    /// Appends every item of `other`, keeping both orders.
    pub fn append(&mut self, other: RequestResult)
        ensures
            final(self)@ == old(self)@ + other@,
    {
        let mut tail = other.requests;
        self.requests.append(&mut tail);
        proof {
            assert(final(self)@ =~= old(self)@ + other@);
        }
    }
}

impl Default for RequestResult {
    fn default() -> (r: Self)
        ensures
            r@ == Seq::<RequestKindView>::empty(),
    {
        RequestResult::new()
    }
}

/// Walks a batch item by item. Whether an item was delivered or failed only
/// gets recorded: it never stops the walk, so every later item still runs.
pub struct BatchExec {
    items: Vec<RequestKind>,
    next: usize,
    failures: usize,
}

impl BatchExec {
    pub closed spec fn items_view(&self) -> Seq<RequestKindView> {
        request_views(self.items@)
    }

    pub closed spec fn cursor(&self) -> int {
        self.next as int
    }

    pub closed spec fn failure_count(&self) -> int {
        self.failures as int
    }

    pub open spec fn wf(&self) -> bool {
        0 <= self.cursor() <= self.items_view().len() && 0 <= self.failure_count()
            <= self.cursor()
    }

    /// Starts a walk over a finished batch.
    pub fn start(batch: RequestResult) -> (e: Self)
        ensures
            e.items_view() == batch@,
            e.cursor() == 0,
            e.failure_count() == 0,
            e.wf(),
    {
        BatchExec { items: batch.requests, next: 0, failures: 0 }
    }

    /// The next effect to perform, if any item is left.
    pub fn next_request(&self) -> (r: Option<&RequestKind>)
        requires
            self.wf(),
        ensures
            match r {
                Some(req) => self.cursor() < self.items_view().len() && req@ == self.items_view()[
                    self.cursor()
                ],
                None => self.cursor() == self.items_view().len(),
            },
    {
        if self.next < self.items.len() {
            Some(&self.items[self.next])
        } else {
            None
        }
    }

    /// Records the outcome of the item just performed and moves on. The
    /// cursor advances whether or not the delivery succeeded: one failed item
    /// never aborts the rest of the batch.
    pub fn record(&mut self, delivered: bool)
        requires
            old(self).wf(),
            old(self).cursor() < old(self).items_view().len(),
        ensures
            final(self).wf(),
            final(self).items_view() == old(self).items_view(),
            final(self).cursor() == old(self).cursor() + 1,
            final(self).failure_count() == old(self).failure_count() + (if delivered {
                0int
            } else {
                1int
            }),
    {
        let n = self.items.len();
        proof {
            assert(self.next < n);
            assert(self.failures <= self.next);
        }
        self.next = self.next + 1;
        if !delivered {
            self.failures = self.failures + 1;
        }
    }

    /// How many items failed so far; the rest were delivered.
    pub fn failures(&self) -> (r: usize)
        ensures
            r == self.failure_count(),
    {
        self.failures
    }
}

} // verus!
