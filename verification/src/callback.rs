use vstd::prelude::*;
use crate::button::ButtonView;
use crate::dispatch::{button_outcome, CallbackContext};
use crate::ident::{parse_payload, split_at_dot};
use crate::keyboard::KeyboardView;
use crate::request::{Note, RequestKind, RequestKindView, RequestResult};
use crate::state::State;
use crate::store::{entry_of, has_entry, EntryView, HasId};

verus! {

/// The batch that answers a stale click: an explicit notice, and the dead
/// button row stripped off the message.
pub open spec fn outdated_batch(ctx: CallbackContext) -> Seq<RequestKindView> {
    seq![
        RequestKindView::CallbackAnswer {
            callback_id: ctx.callback_id@,
            note: Note::Outdated,
            show_alert: true,
        },
    ] + (match ctx.message {
        Some(m) => seq![
            RequestKindView::EditReplyMarkup {
                chat_id: ctx.chat_id as int,
                message_id: m.message_id as int,
                keyboard: None,
            },
        ],
        None => Seq::<RequestKindView>::empty(),
    })
}

/// A witness marker, constantly true: it claims nothing and only anchors the
/// trigger of the quantifier that picks the state right after the keyboard
/// was consumed. The real constraints on that state stand beside it.
pub open spec fn consumed_into(stmid: State) -> bool {
    true
}

/// A witness marker, constantly true: it claims nothing and only anchors the
/// trigger of the quantifier that picks the clicked button off the consumed
/// keyboard. The real constraints on the button stand beside it.
pub open spec fn click_parts(kbv: KeyboardView, bv: ButtonView, stmid: State) -> bool {
    true
}

/// What one inbound click leaves behind: a malformed or stale payload yields
/// the outdated notice and no state change beyond consuming nothing; a
/// resolved click runs its button's action exactly once and then consumes the
/// keyboard, so a second click on the same payload resolves to nothing.
pub open spec fn callback_outcome(
    st0: State,
    st1: State,
    ctx: CallbackContext,
    payload: Seq<char>,
    batch: Seq<RequestKindView>,
) -> bool {
    match split_at_dot(payload) {
        None => st1 == st0 && batch == outdated_batch(ctx),
        Some(parts) => {
            let kid = parts.0;
            let bid = parts.1;
            if kid.len() == 0 || bid.len() == 0 {
                st1 == st0 && batch == outdated_batch(ctx)
            } else if !has_entry(st0.keyboards@, kid) {
                st1 == st0 && batch == outdated_batch(ctx)
            } else {
                let kbv = entry_of(st0.keyboards@, kid);
                exists|stmid: State|
                    {
                        &&& #[trigger] consumed_into(stmid)
                        &&& stmid.meals == st0.meals
                        &&& stmid.plans == st0.plans
                        &&& stmid.polls == st0.polls
                        &&& stmid.whitelist == st0.whitelist
                        &&& stmid.config == st0.config
                        &&& (exists|i: int|
                            0 <= i < st0.keyboards@.len() && (#[trigger] st0.keyboards@[i]).vid()
                                == kid && stmid.keyboards@ == st0.keyboards@.remove(i))
                        &&& !has_entry(stmid.keyboards@, kid)
                        &&& if exists|i: int, j: int|
                            0 <= i < kbv.buttons.len() && 0 <= j < kbv.buttons[i].len() && (
                            #[trigger] kbv.buttons[i][j]).id == bid {
                            exists|bv: ButtonView|
                                {
                                    &&& #[trigger] click_parts(kbv, bv, stmid)
                                    &&& bv.id == bid
                                    &&& (exists|i: int, j: int|
                                        0 <= i < kbv.buttons.len() && 0 <= j < kbv.buttons[i].len()
                                            && (#[trigger] kbv.buttons[i][j]) == bv)
                                    &&& button_outcome(stmid, st1, ctx, bv.kind, batch)
                                }
                        } else {
                            st1 == stmid && batch == Seq::<RequestKindView>::empty()
                        }
                    }
            }
        },
    }
}

/// Routes one inbound click: parses the payload, resolves the keyboard,
/// replays the named button's action, and consumes the keyboard so the click
/// cannot fire twice.
pub fn handle_callback(state: &mut State, ctx: &CallbackContext, payload: &str) -> (r:
    RequestResult)
    requires
        old(state).wf(),
    ensures
        final(state).wf(),
        callback_outcome(*old(state), *final(state), *ctx, payload@, r@),
{
    let correlation = match parse_payload(payload) {
        Some(c) => c,
        None => {
            return outdated_notice(ctx);
        },
    };
    let keyboard_id = match correlation.keyboard_id {
        Some(k) => k,
        None => {
            return outdated_notice(ctx);
        },
    };
    let keyboard = match state.keyboards.get(&keyboard_id) {
        Some(kb) => kb,
        None => {
            return outdated_notice(ctx);
        },
    };
    let ghost kbv = keyboard@;
    let ghost kid = keyboard_id@;
    proof {
        assert(old(state).keyboards@.contains(kbv));
        let k = choose|k: int|
            0 <= k < old(state).keyboards@.len() && old(state).keyboards@[k] == kbv;
        crate::store::lemma_entry_of(old(state).keyboards@, kid, k);
        assert(entry_of(old(state).keyboards@, kid) == kbv);
        assert(old(state).keyboards@[k].wf());
        assert(kbv.wf());
    }
    let resolved = match keyboard.get_btn(correlation.button_id) {
        Some(button) => Some(button.kind.duplicate()),
        None => None,
    };
    let ghost bv_opt: Option<ButtonView> = (match &resolved {
        Some(k) => Some(
            choose|bv: ButtonView|
                {
                    &&& bv.id == correlation.button_id@
                    &&& (exists|i: int, j: int|
                        0 <= i < kbv.buttons.len() && 0 <= j < kbv.buttons[i].len() && (
                        #[trigger] kbv.buttons[i][j]) == bv)
                    &&& bv.kind == k@
                },
        ),
        None => None,
    });
    // consume on first resolve: the correlation id is spent before any
    // transport call can run, so a redelivered click resolves to nothing
    let removed = state.keyboards.remove(&keyboard_id);
    let ghost stmid = *state;
    proof {
        assert(consumed_into(stmid));
        assert(removed is Some);
    }
    let out = match resolved {
        Some(kind) => {
            let ghost bv = bv_opt->Some_0;
            proof {
                let (i, j) = choose|i: int, j: int|
                    0 <= i < kbv.buttons.len() && 0 <= j < kbv.buttons[i].len()
                        && kbv.buttons[i][j] == bv;
                assert(kbv.buttons[i][j].wf());
                assert(bv.kind.wf());
                assert(click_parts(kbv, bv, stmid));
            }
            kind.execute(state, ctx)
        },
        None => RequestResult::new(),
    };
    out
}

/// The stale-click reply: tell the user to rerun, and strip the dead row.
fn outdated_notice(ctx: &CallbackContext) -> (r: RequestResult)
    ensures
        r@ == outdated_batch(*ctx),
{
    let mut result = RequestResult::new();
    result.add(
        RequestKind::CallbackAnswer {
            callback_id: ctx.callback_id.clone(),
            note: Note::Outdated,
            show_alert: true,
        },
    );
    match &ctx.message {
        Some(m) => {
            result.add(
                RequestKind::EditReplyMarkup {
                    chat_id: ctx.chat_id,
                    message_id: m.message_id,
                    keyboard: None,
                },
            );
        },
        None => {},
    }
    proof {
        assert(result@ =~= outdated_batch(*ctx));
    }
    result
}

} // verus!
