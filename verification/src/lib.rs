//! The interaction engine of a meal-planning chat bot: a button/keyboard
//! registry addressed by compact correlation ids, a dispatcher over a closed
//! set of logical actions, a rating-poll state machine that folds anonymous
//! tallies into a meal's star rating, and a weighted plan sampler that never
//! repeats a meal. Every mutation goes through explicit, contract-checked
//! stores, and every outbound effect is collected in an ordered batch that a
//! thin transport shell performs.

pub mod button;
pub mod callback;
pub mod command;
pub mod dispatch;
pub mod ident;
pub mod keyboard;
pub mod meal;
pub mod plan;
pub mod poll;
pub mod request;
pub mod search;
pub mod state;
pub mod store;
pub mod text;

use vstd::prelude::*;

verus! {

/// A meal rating is always one of the five star levels.
pub open spec fn rating_in_range(r: u8) -> bool {
    1 <= r <= 5
}

pub fn clamp_rating(r: u8) -> (out: u8)
    ensures
        rating_in_range(out),
        rating_in_range(r) ==> out == r,
        out == (if r < 1 {
            1u8
        } else if r > 5 {
            5u8
        } else {
            r
        }),
{
    if r < 1 {
        1
    } else if r > 5 {
        5
    } else {
        r
    }
}

} // verus!
