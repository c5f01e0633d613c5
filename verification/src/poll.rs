use vstd::prelude::*;
use vstd::string::*;
use crate::button::ButtonKindView;
use crate::ident::{fresh_id, id_wf};
use crate::rating_in_range;
use crate::store::{EntryView, HasId};

verus! {

/// The model of a [`PollKind`].
pub enum PollKindView {
    Meal { meal_id: Seq<char>, reply_message_id: int },
    Plan { plan_id: Seq<char> },
}

/// What a poll collects votes for: a star rating of one meal, or a preference
/// vote on a plan's meals.
pub enum PollKind {
    Meal { meal_id: String, reply_message_id: i32 },
    Plan { plan_id: String },
}

impl View for PollKind {
    type V = PollKindView;

    open spec fn view(&self) -> PollKindView {
        match self {
            PollKind::Meal { meal_id, reply_message_id } => PollKindView::Meal {
                meal_id: meal_id@,
                reply_message_id: *reply_message_id as int,
            },
            PollKind::Plan { plan_id } => PollKindView::Plan { plan_id: plan_id@ },
        }
    }
}

impl PollKind {
    /// An exact copy of the kind.
    pub fn duplicate(&self) -> (r: Self)
        ensures
            r@ == self@,
    {
        match self {
            PollKind::Meal { meal_id, reply_message_id } => PollKind::Meal {
                meal_id: meal_id.clone(),
                reply_message_id: *reply_message_id,
            },
            PollKind::Plan { plan_id } => PollKind::Plan { plan_id: plan_id.clone() },
        }
    }
}

/// The model of a [`Poll`].
pub struct PollView {
    pub id: Seq<char>,
    pub poll_id: Seq<char>,
    pub chat_id: int,
    pub message_id: int,
    pub poll_kind: PollKindView,
    pub is_canceled: bool,
    pub keyboard_id: Seq<char>,
}

impl EntryView for PollView {
    open spec fn vid(&self) -> Seq<char> {
        self.id
    }

    open spec fn vchat(&self) -> int {
        self.chat_id
    }
}

impl PollView {
    pub open spec fn wf(&self) -> bool {
        id_wf(self.id)
    }
}

/// A poll that has been announced but whose external id and anchor message are
/// not known yet: they arrive with the transport's reply.
pub struct PollBuildStepOne {
    pub id: String,
    pub chat_id: i64,
    pub poll_kind: PollKind,
    pub is_canceled: bool,
    pub keyboard_id: String,
}

/// The model of a [`PollBuildStepOne`].
pub struct PollBuildView {
    pub id: Seq<char>,
    pub chat_id: int,
    pub poll_kind: PollKindView,
    pub is_canceled: bool,
    pub keyboard_id: Seq<char>,
}

impl View for PollBuildStepOne {
    type V = PollBuildView;

    open spec fn view(&self) -> PollBuildView {
        PollBuildView {
            id: self.id@,
            chat_id: self.chat_id as int,
            poll_kind: self.poll_kind@,
            is_canceled: self.is_canceled,
            keyboard_id: self.keyboard_id@,
        }
    }
}

impl PollBuildStepOne {
    /// An exact copy of the builder.
    pub fn duplicate(&self) -> (r: Self)
        ensures
            r@ == self@,
    {
        PollBuildStepOne {
            id: self.id.clone(),
            chat_id: self.chat_id,
            poll_kind: self.poll_kind.duplicate(),
            is_canceled: self.is_canceled,
            keyboard_id: self.keyboard_id.clone(),
        }
    }

    /// Completes the record once the transport has reported the external poll
    /// id and the anchor message.
    pub fn finalize(&self, poll_id: String, message_id: i32) -> (r: Poll)
        ensures
            r@ == (PollView {
                id: self@.id,
                poll_id: poll_id@,
                chat_id: self@.chat_id,
                message_id: message_id as int,
                poll_kind: self@.poll_kind,
                is_canceled: false,
                keyboard_id: self@.keyboard_id,
            }),
    {
        Poll {
            id: self.id.clone(),
            poll_id,
            chat_id: self.chat_id,
            message_id,
            poll_kind: self.poll_kind.duplicate(),
            keyboard_id: self.keyboard_id.clone(),
            is_canceled: false,
        }
    }
}

/// A live rating or plan vote: the bridge between the external poll object and
/// the meal or plan it decides about.
pub struct Poll {
    pub id: String,
    pub poll_id: String,
    pub chat_id: i64,
    pub message_id: i32,
    pub poll_kind: PollKind,
    pub is_canceled: bool,
    pub keyboard_id: String,
}

impl View for Poll {
    type V = PollView;

    open spec fn view(&self) -> PollView {
        PollView {
            id: self.id@,
            poll_id: self.poll_id@,
            chat_id: self.chat_id as int,
            message_id: self.message_id as int,
            poll_kind: self.poll_kind@,
            is_canceled: self.is_canceled,
            keyboard_id: self.keyboard_id@,
        }
    }
}

impl HasId for Poll {
    fn id(&self) -> (r: String)
        ensures
            r@ == self@.vid(),
    {
        self.id.clone()
    }

    fn chat_id(&self) -> (r: i64)
        ensures
            r as int == self@.vchat(),
    {
        self.chat_id
    }

    fn duplicate(&self) -> (r: Self)
        ensures
            r@ == self@,
    {
        Poll {
            id: self.id.clone(),
            poll_id: self.poll_id.clone(),
            chat_id: self.chat_id,
            message_id: self.message_id,
            poll_kind: self.poll_kind.duplicate(),
            is_canceled: self.is_canceled,
            keyboard_id: self.keyboard_id.clone(),
        }
    }
}

impl Poll {
    /// A poll record with a fresh correlation id.
    pub fn new(
        poll_id: String,
        chat_id: i64,
        message_id: i32,
        poll_kind: PollKind,
        keyboard_id: String,
    ) -> (r: Self)
        ensures
            r@.poll_id == poll_id@,
            r@.chat_id == chat_id as int,
            r@.message_id == message_id as int,
            r@.poll_kind == poll_kind@,
            r@.keyboard_id == keyboard_id@,
            r@.is_canceled == false,
            r@.wf(),
    {
        Poll { id: fresh_id(), poll_id, chat_id, message_id, poll_kind, keyboard_id, is_canceled: false }
    }

    /// Starts building a poll record before the transport call is made.
    pub fn build(chat_id: i64, poll_kind: PollKind, keyboard_id: String) -> (r: PollBuildStepOne)
        ensures
            r@.chat_id == chat_id as int,
            r@.poll_kind == poll_kind@,
            r@.keyboard_id == keyboard_id@,
            r@.is_canceled == false,
            id_wf(r@.id),
    {
        PollBuildStepOne { id: fresh_id(), chat_id, poll_kind, keyboard_id, is_canceled: false }
    }

    /// Marks the poll canceled: tallies collected so far will be discarded
    /// when the external poll closes.
    pub fn cancel(&mut self)
        ensures
            final(self)@ == (PollView { is_canceled: true, ..old(self)@ }),
    {
        self.is_canceled = true;
    }
}

/// The vote weight of the option at `i` is `i + 1` stars: the weighted tally
/// of a whole option list.
pub open spec fn weighted_sum(votes: Seq<u32>) -> int
    decreases votes.len(),
{
    if votes.len() == 0 {
        0
    } else {
        weighted_sum(votes.drop_last()) + votes.len() * votes.last()
    }
}

/// How many votes were cast over all options.
pub open spec fn total_votes(votes: Seq<u32>) -> int
    decreases votes.len(),
{
    if votes.len() == 0 {
        0
    } else {
        total_votes(votes.drop_last()) + votes.last()
    }
}

/// The floored weighted average of the cast votes.
pub open spec fn vote_average(votes: Seq<u32>) -> int {
    weighted_sum(votes) / total_votes(votes)
}

/// The blended rating: the poll's average, averaged once more with the prior
/// rating, so that a single poll cannot swing a meal's rating all the way.
/// An unrated meal takes the average itself as its prior.
pub open spec fn blended_rating_spec(votes: Seq<u32>, prior: Option<u8>) -> int {
    let avg = vote_average(votes);
    let r0 = match prior {
        Some(r) => r as int,
        None => avg,
    };
    (avg + r0) / 2
}

proof fn lemma_total_nonneg(votes: Seq<u32>)
    ensures
        total_votes(votes) >= 0,
    decreases votes.len(),
{
    if votes.len() > 0 {
        lemma_total_nonneg(votes.drop_last());
    }
}

proof fn lemma_sum_bounds(votes: Seq<u32>)
    ensures
        total_votes(votes) <= weighted_sum(votes) <= votes.len() * total_votes(votes),
    decreases votes.len(),
{
    if votes.len() == 0 {
    } else {
        let prev = votes.drop_last();
        lemma_sum_bounds(prev);
        lemma_total_nonneg(prev);
        assert(prev.len() * total_votes(prev) <= votes.len() * total_votes(prev)) by (nonlinear_arith)
            requires
                prev.len() <= votes.len(),
                total_votes(prev) >= 0,
        ;
        assert(votes.len() * votes.last() >= votes.last()) by (nonlinear_arith)
            requires
                votes.len() >= 1,
                votes.last() >= 0,
        ;
        assert(votes.len() * total_votes(votes) == votes.len() * total_votes(prev) + votes.len()
            * votes.last()) by (nonlinear_arith)
            requires
                total_votes(votes) == total_votes(prev) + votes.last(),
        ;
    }
}

/// Law: when nobody holds a prior rating, the blend collapses to the poll's
/// own average exactly.
pub proof fn lemma_unrated_collapse(votes: Seq<u32>)
    requires
        total_votes(votes) > 0,
    ensures
        blended_rating_spec(votes, None) == vote_average(votes),
{
    let avg = vote_average(votes);
    assert((avg + avg) / 2 == avg);
}

/// Folds a closed rating poll's tallies into one star level. Nothing is
/// returned when nobody voted. The five options carry one to five stars.
pub fn blended_rating(option_votes: &Vec<u32>, prior: Option<u8>) -> (r: Option<u8>)
    requires
        option_votes@.len() == 5,
        prior matches Some(p) ==> rating_in_range(p),
    ensures
        total_votes(option_votes@) == 0 ==> r is None,
        total_votes(option_votes@) > 0 ==> {
            &&& r matches Some(v)
            &&& v as int == blended_rating_spec(option_votes@, prior)
            &&& rating_in_range(v)
        },
{
    let n = option_votes.len();
    let mut total: u64 = 0;
    let mut weighted: u64 = 0;
    let mut i: usize = 0;
    while i < n
        invariant
            0 <= i <= n,
            n == option_votes@.len() == 5,
            total == total_votes(option_votes@.take(i as int)),
            weighted == weighted_sum(option_votes@.take(i as int)),
            total <= i * 0xffff_ffff,
            weighted <= 5 * i * 0xffff_ffff,
        decreases n - i,
    {
        let v = option_votes[i];
        proof {
            assert(option_votes@.take(i as int + 1).drop_last() =~= option_votes@.take(i as int));
            assert(option_votes@.take(i as int + 1).last() == option_votes@[i as int]);
            assert((i as int + 1) * (v as int) <= (i as int + 1) * 0xffff_ffff) by (nonlinear_arith)
                requires
                    0 <= v <= 0xffff_ffff,
                    i >= 0,
            ;
        }
        total = total + v as u64;
        weighted = weighted + (i as u64 + 1) * v as u64;
        i = i + 1;
    }
    proof {
        assert(option_votes@.take(n as int) =~= option_votes@);
    }
    if total == 0 {
        return None;
    }
    proof {
        lemma_sum_bounds(option_votes@);
    }
    let avg: u64 = weighted / total;
    proof {
        assert(1 <= avg <= 5) by (nonlinear_arith)
            requires
                avg == weighted as int / total as int,
                total as int <= weighted as int <= 5 * total as int,
                total > 0,
        ;
    }
    let r0: u64 = match prior {
        Some(p) => p as u64,
        None => avg,
    };
    let blended: u64 = (avg + r0) / 2;
    Some(blended as u8)
}

/// One status report from the external poll: whether it has closed, and how
/// many voters picked each option.
pub struct PollUpdate {
    pub is_closed: bool,
    pub option_votes: Vec<u32>,
}

/// Completes and files the poll record once the transport has confirmed the
/// poll and reported its external id and anchor message.
pub fn record_sent_poll(
    state: &mut crate::state::State,
    builder: &PollBuildStepOne,
    poll_id: String,
    message_id: i32,
)
    requires
        old(state).wf(),
        id_wf(builder@.id),
    ensures
        final(state).wf(),
        final(state).meals == old(state).meals,
        final(state).plans == old(state).plans,
        final(state).keyboards == old(state).keyboards,
        final(state).whitelist == old(state).whitelist,
        final(state).config == old(state).config,
        crate::store::added(
            old(state).polls@,
            final(state).polls@,
            (PollView {
                id: builder@.id,
                poll_id: poll_id@,
                chat_id: builder@.chat_id,
                message_id: message_id as int,
                poll_kind: builder@.poll_kind,
                is_canceled: false,
                keyboard_id: builder@.keyboard_id,
            }),
        ),
{
    let poll = builder.finalize(poll_id, message_id);
    let ghost pv = poll@;
    let ghost s0 = old(state).polls@;
    state.polls.add(poll);
    proof {
        if crate::store::has_entry(s0, pv.vid()) {
            let i = choose|i: int|
                0 <= i < s0.len() && s0[i].vid() == pv.vid() && state.polls@ == s0.update(i, pv);
            assert forall|p: int| 0 <= p < state.polls@.len() implies (
            #[trigger] state.polls@[p]).wf() by {
                if p != i {
                    assert(state.polls@[p] == s0[p]);
                }
            }
        } else {
            assert forall|p: int| 0 <= p < state.polls@.len() implies (
            #[trigger] state.polls@[p]).wf() by {
                if p < s0.len() {
                    assert(state.polls@[p] == s0[p]);
                } else {
                    assert(state.polls@[p] == pv);
                }
            }
        }
    }
}

/// The poll record taken out of the table: the store's removal, seen from the
/// poll's id.
pub open spec fn poll_record_dropped(s0: Seq<PollView>, s1: Seq<PollView>, id: Seq<char>) -> bool {
    &&& !crate::store::has_entry(s1, id)
    &&& if crate::store::has_entry(s0, id) {
        exists|i: int| 0 <= i < s0.len() && (#[trigger] s0[i]).vid() == id && s1 == s0.remove(i)
    } else {
        s1 == s0
    }
}

/// A witness marker, constantly true: it claims nothing and only anchors the
/// trigger of the quantifier that picks the keyboard a vote tick produced.
/// The real constraints on the keyboard stand beside it.
pub open spec fn votes_parts(kbv: crate::keyboard::KeyboardView) -> bool {
    true
}

/// What one poll status update does, in every state of the vote's lifecycle.
pub open spec fn handle_votes_outcome(
    st0: crate::state::State,
    st1: crate::state::State,
    poll: PollView,
    closed: bool,
    votes: Seq<u32>,
    batch: Seq<crate::request::RequestKindView>,
) -> bool {
    match poll.poll_kind {
        PollKindView::Plan { .. } => st1 == st0 && batch == Seq::<
            crate::request::RequestKindView,
        >::empty(),
        PollKindView::Meal { meal_id, reply_message_id } => {
            &&& st1.plans == st0.plans
            &&& st1.whitelist == st0.whitelist
            &&& st1.config == st0.config
            &&& if !crate::store::has_entry(st0.meals@, meal_id) {
                // the meal is gone: stop the poll and drop the record
                &&& st1.meals == st0.meals
                &&& st1.keyboards == st0.keyboards
                &&& poll_record_dropped(st0.polls@, st1.polls@, poll.id)
                &&& batch == seq![
                    crate::request::RequestKindView::StopPoll {
                        chat_id: poll.chat_id,
                        message_id: poll.message_id,
                        poll: Some(poll),
                    },
                ]
            } else {
                let m0 = crate::store::entry_of(st0.meals@, meal_id);
                if closed {
                    &&& poll_record_dropped(st0.polls@, st1.polls@, poll.id)
                    &&& if total_votes(votes) > 0 && !poll.is_canceled {
                        // fold the tallies into the rating and confirm
                        let blended = blended_rating_spec(votes, m0.rating);
                        &&& st1.keyboards == st0.keyboards
                        &&& exists|i: int|
                            {
                                &&& 0 <= i < st0.meals@.len()
                                &&& (#[trigger] st0.meals@[i]).vid() == meal_id
                                &&& st1.meals@ == st0.meals@.update(
                                    i,
                                    (crate::meal::MealView {
                                        rating: Some(blended as u8),
                                        ..st0.meals@[i]
                                    }),
                                )
                            }
                        &&& batch == seq![
                            crate::request::RequestKindView::EditMessage {
                                chat_id: poll.chat_id,
                                message_id: reply_message_id,
                                text: (crate::request::MsgTextView::MealWith {
                                    meal: (crate::meal::MealView {
                                        rating: Some(blended as u8),
                                        ..m0
                                    }),
                                    note: crate::request::Note::Saved,
                                }),
                                keyboard: None,
                            },
                        ]
                    } else {
                        // canceled, or nobody voted: the tallies are discarded
                        // and the rating never moves
                        &&& st1.meals == st0.meals
                        &&& exists|kbv: crate::keyboard::KeyboardView|
                            {
                                &&& #[trigger] votes_parts(kbv)
                                &&& crate::store::added(st0.keyboards@, st1.keyboards@, kbv)
                                &&& kbv.chat_id == poll.chat_id
                                &&& kbv.buttons.len() == 2
                                &&& kbv.buttons[0].len() == 1
                                &&& (kbv.buttons[0][0].kind
                                    matches ButtonKindView::PollRating { meal_id: bm } && bm
                                    == m0.id)
                                &&& crate::dispatch::is_save_row(kbv.buttons[1], m0.id)
                                &&& batch == seq![
                                    crate::request::RequestKindView::EditMessage {
                                        chat_id: poll.chat_id,
                                        message_id: reply_message_id,
                                        text: (crate::request::MsgTextView::MealWith {
                                            meal: m0,
                                            note: crate::request::Note::PollCanceled,
                                        }),
                                        keyboard: Some(kbv),
                                    },
                                    crate::request::RequestKindView::DeleteMessage {
                                        chat_id: poll.chat_id,
                                        message_id: poll.message_id,
                                    },
                                ]
                            }
                    }
                } else {
                    // the poll is still open: swap the companion keyboard so it
                    // matches whether any votes are in
                    &&& st1.meals == st0.meals
                    &&& exists|kbv: crate::keyboard::KeyboardView|
                        {
                            &&& #[trigger] votes_parts(kbv)
                            &&& kbv.chat_id == poll.chat_id
                            &&& kbv.buttons.len() == 1
                            &&& (if total_votes(votes) > 0 {
                                crate::dispatch::is_poll_save_row(kbv.buttons[0], m0.id, poll.id)
                            } else {
                                crate::dispatch::is_cancel_row(kbv.buttons[0], poll.id)
                            })
                            &&& (exists|kmid: Seq<crate::keyboard::KeyboardView>|
                                {
                                    &&& #[trigger] crate::store::added(kmid, st1.keyboards@, kbv)
                                    &&& !crate::store::has_entry(kmid, poll.keyboard_id)
                                    &&& if crate::store::has_entry(
                                        st0.keyboards@,
                                        poll.keyboard_id,
                                    ) {
                                        exists|i: int|
                                            0 <= i < st0.keyboards@.len() && (
                                            #[trigger] st0.keyboards@[i]).vid() == poll.keyboard_id
                                                && kmid == st0.keyboards@.remove(i)
                                    } else {
                                        kmid == st0.keyboards@
                                    }
                                })
                            &&& (if crate::store::has_entry(st0.polls@, poll.id) {
                                exists|i: int|
                                    0 <= i < st0.polls@.len() && (#[trigger] st0.polls@[i]).vid()
                                        == poll.id && st1.polls@ == st0.polls@.update(
                                        i,
                                        (PollView { keyboard_id: kbv.id, ..st0.polls@[i] }),
                                    )
                            } else {
                                st1.polls@ == st0.polls@
                            })
                            &&& batch == seq![
                                crate::request::RequestKindView::EditReplyMarkup {
                                    chat_id: poll.chat_id,
                                    message_id: poll.message_id,
                                    keyboard: Some(kbv),
                                },
                            ]
                        }
                }
            }
        },
    }
}

impl Poll {
    /// Re-points the companion keyboard: the old grid is gone, clicks now
    /// resolve against the new one.
    pub fn repoint(&mut self, keyboard_id: String)
        ensures
            final(self)@ == (PollView { keyboard_id: keyboard_id@, ..old(self)@ }),
    {
        self.keyboard_id = keyboard_id;
    }

    /// Advances the vote's state machine on one status update from the
    /// external poll: swaps the companion keyboard while voting is open,
    /// folds the tallies into the meal's rating when the poll closed
    /// uncanceled with votes, and discards them otherwise. A canceled poll
    /// never changes a rating, however many votes were cast.
    #[verifier::rlimit(100)]
    #[verifier::spinoff_prover]
    pub fn handle_votes(
        &self,
        state: &mut crate::state::State,
        update: &PollUpdate,
    ) -> (r: crate::request::RequestResult)
        requires
            old(state).wf(),
            self@.wf(),
            self@.poll_kind matches PollKindView::Meal { .. } ==> update.option_votes@.len() == 5,
        ensures
            final(state).wf(),
            handle_votes_outcome(
                *old(state),
                *final(state),
                self@,
                update.is_closed,
                update.option_votes@,
                r@,
            ),
            self@.is_canceled ==> final(state).meals == old(state).meals,
    {
        let mut result = crate::request::RequestResult::new();
        let (meal_id, reply_message_id) = match &self.poll_kind {
            PollKind::Meal { meal_id, reply_message_id } => (meal_id.clone(), *reply_message_id),
            PollKind::Plan { .. } => {
                proof {
                    assert(result@ =~= Seq::<crate::request::RequestKindView>::empty());
                }
                return result;
            },
        };
        let meal = match state.meals.get(&meal_id) {
            Some(meal) => meal,
            None => {
                let removed = state.polls.remove(&self.id);
                result.add(
                    crate::request::RequestKind::StopPoll {
                        chat_id: self.chat_id,
                        message_id: self.message_id,
                        poll: Some(self.duplicate()),
                    },
                );
                proof {
                    assert(result@ =~= seq![
                        crate::request::RequestKindView::StopPoll {
                            chat_id: self@.chat_id,
                            message_id: self@.message_id,
                            poll: Some(self@),
                        },
                    ]);
                }
                return result;
            },
        };
        let ghost mv = meal@;
        proof {
            assert(old(state).meals@.contains(mv));
            let k = choose|k: int|
                0 <= k < old(state).meals@.len() && old(state).meals@[k] == mv;
            crate::store::lemma_entry_of(old(state).meals@, meal_id@, k);
            assert(crate::store::entry_of(old(state).meals@, meal_id@) == mv);
            assert(old(state).meals@[k].wf());
            assert(mv.wf());
        }
        if update.is_closed {
            let removed = state.polls.remove(&self.id);
            proof {
                assert(poll_record_dropped(old(state).polls@, state.polls@, self@.id));
            }
            let blended = blended_rating(&update.option_votes, meal.rating);
            proof {
                lemma_total_nonneg(update.option_votes@);
            }
            match blended {
                Some(v) if !self.is_canceled => {
                    let mut meal2 = meal;
                    meal2.rate(Some(v));
                    let ghost s0m = old(state).meals@;
                    let dup = meal2.duplicate();
                    state.meals.add(dup);
                    proof {
                        assert(s0m.contains(mv));
                        let k = choose|k: int| 0 <= k < s0m.len() && s0m[k] == mv;
                        assert(s0m[k].vid() == meal_id@);
                        assert(crate::store::has_entry(s0m, meal2@.vid()));
                        let i = choose|i: int|
                            0 <= i < s0m.len() && s0m[i].vid() == meal2@.vid() && state.meals@
                                == s0m.update(i, meal2@);
                        assert(s0m.contains(s0m[i]));
                        crate::store::lemma_entry_unique(s0m, s0m[i], mv);
                        assert(s0m[i] == mv);
                        assert forall|p: int| 0 <= p < state.meals@.len() implies (
                        #[trigger] state.meals@[p]).wf() by {
                            if p != i {
                                assert(state.meals@[p] == s0m[p]);
                            }
                        }
                    }
                    result.add(
                        crate::request::RequestKind::EditMessage {
                            chat_id: self.chat_id,
                            message_id: reply_message_id,
                            text: crate::request::MsgText::MealWith {
                                meal: meal2,
                                note: crate::request::Note::Saved,
                            },
                            keyboard: None,
                        },
                    );
                    proof {
                        assert(result@ =~= seq![
                            crate::request::RequestKindView::EditMessage {
                                chat_id: self@.chat_id,
                                message_id: reply_message_id as int,
                                text: (crate::request::MsgTextView::MealWith {
                                    meal: (crate::meal::MealView {
                                        rating: Some(
                                            blended_rating_spec(
                                                update.option_votes@,
                                                mv.rating,
                                            ) as u8,
                                        ),
                                        ..mv
                                    }),
                                    note: crate::request::Note::Saved,
                                }),
                                keyboard: None,
                            },
                        ]);
                    }
                },
                _ => {
                    // restore the meal card with its original action buttons
                    let poll_button = crate::button::Button::new(
                        String::from_str("Rate with Poll"),
                        crate::button::ButtonKind::PollRating { meal_id: meal.id.clone() },
                    );
                    let ghost pbv = poll_button@;
                    let mut row: Vec<crate::button::Button> = Vec::new();
                    let ghost er = row@;
                    row.push(poll_button);
                    proof {
                        crate::button::lemma_row_views_push(er, row@.last());
                        assert(row@ =~= er.push(row@.last()));
                    }
                    let ghost prv = crate::button::row_views(row@);
                    let srow = crate::button::save_meal_button_row(&meal.id);
                    let ghost srv = crate::button::row_views(srow@);
                    let mut rows: Vec<Vec<crate::button::Button>> = Vec::new();
                    let ghost eg = rows@;
                    rows.push(row);
                    proof {
                        crate::button::lemma_rows_views_push(eg, rows@.last());
                        assert(rows@ =~= eg.push(rows@.last()));
                    }
                    let ghost one = rows@;
                    rows.push(srow);
                    proof {
                        crate::button::lemma_rows_views_push(one, rows@.last());
                        assert(rows@ =~= one.push(rows@.last()));
                    }
                    let ghost grid = crate::button::rows_views(rows@);
                    proof {
                        assert(grid =~= seq![prv, srv]);
                        assert(prv =~= seq![pbv]);
                    }
                    let keyboard = crate::keyboard::Keyboard::new(self.chat_id).buttons(rows);
                    let ghost kbv = keyboard@;
                    proof {
                        crate::dispatch::lemma_stamp_grid(grid, kbv.id);
                        assert(kbv.buttons[0].len() == 1);
                        assert(kbv.buttons[0][0].kind == pbv.kind);
                        assert(crate::dispatch::is_save_row(kbv.buttons[1], mv.id)) by {
                            crate::dispatch::lemma_stamp_preserves_save_row_pub(srv, kbv.id, mv.id);
                        }
                        assert forall|a: int, b: int|
                            0 <= a < grid.len() && 0 <= b < grid[a].len() implies id_wf(
                            (#[trigger] grid[a][b]).id,
                        ) && grid[a][b].kind.wf() by {
                            if a == 0 {
                                assert(grid[a][b] == pbv);
                            } else {
                                assert(grid[a][b] == srv[b]);
                            }
                        }
                        crate::keyboard::lemma_built_keyboard_wf(kbv, grid);
                        assert(kbv.has_buttons());
                    }
                    let keyboard = keyboard.save(state);
                    result.add(
                        crate::request::RequestKind::EditMessage {
                            chat_id: self.chat_id,
                            message_id: reply_message_id,
                            text: crate::request::MsgText::MealWith {
                                meal,
                                note: crate::request::Note::PollCanceled,
                            },
                            keyboard: Some(keyboard),
                        },
                    );
                    result.add(
                        crate::request::RequestKind::DeleteMessage {
                            chat_id: self.chat_id,
                            message_id: self.message_id,
                        },
                    );
                    proof {
                        assert(votes_parts(kbv));
                        assert(result@ =~= seq![
                            crate::request::RequestKindView::EditMessage {
                                chat_id: self@.chat_id,
                                message_id: reply_message_id as int,
                                text: (crate::request::MsgTextView::MealWith {
                                    meal: mv,
                                    note: crate::request::Note::PollCanceled,
                                }),
                                keyboard: Some(kbv),
                            },
                            crate::request::RequestKindView::DeleteMessage {
                                chat_id: self@.chat_id,
                                message_id: self@.message_id,
                            },
                        ]);
                    }
                },
            }
        } else {
            // the poll is still open: consume the old keyboard, register the
            // one that matches the tally
            let removed_kb = state.keyboards.remove(&self.keyboard_id);
            let ghost kmid = state.keyboards@;
            let has_votes = match blended_rating(&update.option_votes, None) {
                Some(_) => true,
                None => false,
            };
            proof {
                lemma_total_nonneg(update.option_votes@);
                assert(has_votes == (total_votes(update.option_votes@) > 0));
            }
            let row: Vec<crate::button::Button> = if has_votes {
                crate::button::save_poll_button_row(&meal.id, &self.id)
            } else {
                let cancel_button = crate::button::Button::new(
                    String::from_str("Cancel Vote"),
                    crate::button::ButtonKind::CancelPollRating { poll_id: self.id.clone() },
                );
                let ghost cbv = cancel_button@;
                let mut row: Vec<crate::button::Button> = Vec::new();
                let ghost er = row@;
                row.push(cancel_button);
                proof {
                    crate::button::lemma_row_views_push(er, row@.last());
                    assert(row@ =~= er.push(row@.last()));
                    assert(crate::button::row_views(row@) =~= seq![cbv]);
                }
                row
            };
            let ghost rv = crate::button::row_views(row@);
            let mut rows: Vec<Vec<crate::button::Button>> = Vec::new();
            let ghost eg = rows@;
            rows.push(row);
            proof {
                crate::button::lemma_rows_views_push(eg, rows@.last());
                assert(rows@ =~= eg.push(rows@.last()));
            }
            let ghost grid = crate::button::rows_views(rows@);
            proof {
                assert(grid =~= seq![rv]);
            }
            let keyboard = crate::keyboard::Keyboard::new(self.chat_id).buttons(rows);
            let ghost kbv = keyboard@;
            proof {
                crate::dispatch::lemma_stamp_grid(grid, kbv.id);
                if total_votes(update.option_votes@) > 0 {
                    assert(kbv.buttons[0].len() == 2);
                    assert(kbv.buttons[0][0].kind == rv[0].kind);
                    assert(kbv.buttons[0][1].kind == rv[1].kind);
                    assert(kbv.buttons[0][0].text == rv[0].text);
                    assert(kbv.buttons[0][1].text == rv[1].text);
                    assert(crate::dispatch::is_poll_save_row(kbv.buttons[0], mv.id, self@.id));
                } else {
                    assert(kbv.buttons[0].len() == 1);
                    assert(kbv.buttons[0][0].kind == rv[0].kind);
                    assert(crate::dispatch::is_cancel_row(kbv.buttons[0], self@.id));
                }
                assert forall|a: int, b: int|
                    0 <= a < grid.len() && 0 <= b < grid[a].len() implies id_wf(
                    (#[trigger] grid[a][b]).id,
                ) && grid[a][b].kind.wf() by {
                    assert(grid[a][b] == rv[b]);
                }
                crate::keyboard::lemma_built_keyboard_wf(kbv, grid);
                assert(kbv.has_buttons());
            }
            let keyboard = keyboard.save(state);
            proof {
                assert(crate::store::added(kmid, state.keyboards@, kbv));
            }
            match state.polls.get(&self.id) {
                Some(mut record) => {
                    let ghost rec0 = record@;
                    let ghost sp0 = old(state).polls@;
                    record.repoint(keyboard.id.clone());
                    let dup = record.duplicate();
                    state.polls.add(dup);
                    proof {
                        assert(sp0.contains(rec0));
                        let k = choose|k: int| 0 <= k < sp0.len() && sp0[k] == rec0;
                        assert(crate::store::has_entry(sp0, record@.vid()));
                        let i = choose|i: int|
                            0 <= i < sp0.len() && sp0[i].vid() == record@.vid() && state.polls@
                                == sp0.update(i, record@);
                        assert(sp0.contains(sp0[i]));
                        crate::store::lemma_entry_unique(sp0, sp0[i], rec0);
                        assert(sp0[i] == rec0);
                        assert forall|p: int| 0 <= p < state.polls@.len() implies (
                        #[trigger] state.polls@[p]).wf() by {
                            if p != i {
                                assert(state.polls@[p] == sp0[p]);
                            }
                        }
                    }
                },
                None => {},
            }
            result.add(
                crate::request::RequestKind::EditReplyMarkup {
                    chat_id: self.chat_id,
                    message_id: self.message_id,
                    keyboard: Some(keyboard),
                },
            );
            proof {
                assert(votes_parts(kbv));
                assert(result@ =~= seq![
                    crate::request::RequestKindView::EditReplyMarkup {
                        chat_id: self@.chat_id,
                        message_id: self@.message_id,
                        keyboard: Some(kbv),
                    },
                ]);
                lemma_total_nonneg(update.option_votes@);
                assert(crate::store::added(kmid, state.keyboards@, kbv));
                assert(handle_votes_outcome(
                    *old(state),
                    *state,
                    self@,
                    false,
                    update.option_votes@,
                    result@,
                ));
            }
        }
        result
    }
}

} // verus!
