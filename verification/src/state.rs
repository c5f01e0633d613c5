use vstd::prelude::*;
use crate::keyboard::Keyboard;
use crate::meal::{Meal, MealView};
use crate::plan::Plan;
use crate::poll::{Poll, PollKindView};
use crate::store::{views_of, EntryView, HasId, Store};
use crate::text::{clone_string_vec, to_upper, upper_of};

verus! {

/// Static configuration handed in at start-up.
pub struct Config {
    pub password: String,
    pub name: String,
    pub backup: bool,
}

impl Config {
    /// An exact copy of the configuration.
    pub fn duplicate(&self) -> (r: Self)
        ensures
            r.password@ == self.password@,
            r.name@ == self.name@,
            r.backup == self.backup,
    {
        Config {
            password: self.password.clone(),
            name: self.name.clone(),
            backup: self.backup,
        }
    }
}

/// Meals of one chat whose name matches `query` with case folded away.
pub open spec fn name_matches(chat: int, upper_query: Seq<char>) -> spec_fn(MealView) -> bool {
    |m: MealView| m.vchat() == chat && upper_of(m.name) == upper_query
}

/// The whole shared mutable state: every registry the engine reads or writes,
/// held as explicit stores rather than a process-wide global.
pub struct State {
    pub meals: Store<Meal>,
    pub plans: Store<Plan>,
    pub polls: Store<Poll>,
    pub keyboards: Store<Keyboard>,
    pub whitelist: Vec<String>,
    pub config: Config,
}

impl State {
    /// Every store keeps unique ids, every meal a lawful rating, every
    /// keyboard its own stamp on all of its buttons.
    pub open spec fn wf(&self) -> bool {
        &&& self.meals.wf()
        &&& self.plans.wf()
        &&& self.polls.wf()
        &&& self.keyboards.wf()
        &&& forall|i: int| 0 <= i < self.meals@.len() ==> (#[trigger] self.meals@[i]).wf()
        &&& forall|i: int| 0 <= i < self.keyboards@.len() ==> (#[trigger] self.keyboards@[i]).wf()
        &&& forall|i: int| 0 <= i < self.polls@.len() ==> (#[trigger] self.polls@[i]).wf()
        &&& forall|i: int| 0 <= i < self.plans@.len() ==> (#[trigger] self.plans@[i]).wf()
    }

    /// A fresh state: empty registries, nobody whitelisted.
    pub fn new(config: Config) -> (r: Self)
        ensures
            r.wf(),
            r.meals@ == Seq::<MealView>::empty(),
            r.plans@.len() == 0,
            r.polls@.len() == 0,
            r.keyboards@.len() == 0,
            r.whitelist@ == Seq::<String>::empty(),
            r.config == config,
    {
        let r = State {
            meals: Store::new(),
            plans: Store::new(),
            polls: Store::new(),
            keyboards: Store::new(),
            whitelist: Vec::new(),
            config,
        };
        proof {
            assert(r.whitelist@ =~= Seq::<String>::empty());
        }
        r
    }

    /// Lets one more user in.
    pub fn whitelist_user(&mut self, username: String)
        ensures
            final(self).whitelist@ == old(self).whitelist@.push(username),
            final(self).meals == old(self).meals,
            final(self).plans == old(self).plans,
            final(self).polls == old(self).polls,
            final(self).keyboards == old(self).keyboards,
            final(self).config == old(self).config,
    {
        self.whitelist.push(username);
    }

    /// Everyone who is allowed to use the engine.
    pub fn get_whitelisted_users(&self) -> (r: Vec<String>)
        ensures
            r@ == self.whitelist@,
    {
        clone_string_vec(&self.whitelist)
    }

    /// Whether `username` has been whitelisted.
    pub fn is_whitelisted(&self, username: &String) -> (r: bool)
        ensures
            r == exists|i: int|
                0 <= i < self.whitelist@.len() && (#[trigger] self.whitelist@[i])@ == username@,
    {
        let n = self.whitelist.len();
        let mut i: usize = 0;
        while i < n
            invariant
                0 <= i <= n,
                n == self.whitelist@.len(),
                forall|j: int| 0 <= j < i ==> (#[trigger] self.whitelist@[j])@ != username@,
            decreases n - i,
        {
            if self.whitelist[i] == *username {
                return true;
            }
            i = i + 1;
        }
        false
    }

    /// The poll record that tracks the external poll `poll_id`, if any.
    pub fn find_poll_by_external(&self, poll_id: &String) -> (r: Option<Poll>)
        ensures
            match r {
                Some(p) => self.polls@.contains(p@) && p@.poll_id == poll_id@,
                None => forall|i: int|
                    0 <= i < self.polls@.len() ==> (#[trigger] self.polls@[i]).poll_id != poll_id@,
            },
    {
        let all = self.polls.all();
        let n = all.len();
        let mut i: usize = 0;
        while i < n
            invariant
                0 <= i <= n,
                n == self.polls@.len(),
                views_of(all@) == self.polls@,
                forall|j: int| 0 <= j < i ==> (#[trigger] self.polls@[j]).poll_id != poll_id@,
            decreases n - i,
        {
            if all[i].poll_id == *poll_id {
                let p = all[i].duplicate();
                proof {
                    assert(p@ == self.polls@[i as int]);
                }
                return Some(p);
            }
            proof {
                assert(all@[i as int]@ == self.polls@[i as int]);
            }
            i = i + 1;
        }
        None
    }

    /// The poll record that collects votes for plan `plan_id` in this chat.
    pub fn find_plan_poll(&self, chat_id: i64, plan_id: &String) -> (r: Option<Poll>)
        ensures
            match r {
                Some(p) => {
                    &&& self.polls@.contains(p@)
                    &&& p@.chat_id == chat_id as int
                    &&& (p@.poll_kind matches PollKindView::Plan { plan_id: pid } && pid
                        == plan_id@)
                },
                None => forall|i: int|
                    0 <= i < self.polls@.len() ==> !((#[trigger] self.polls@[i]).chat_id
                        == chat_id as int && (self.polls@[i].poll_kind
                        matches PollKindView::Plan { plan_id: pid } && pid == plan_id@)),
            },
    {
        let all = self.polls.all();
        let n = all.len();
        let mut i: usize = 0;
        while i < n
            invariant
                0 <= i <= n,
                n == self.polls@.len(),
                views_of(all@) == self.polls@,
                forall|j: int|
                    0 <= j < i ==> !((#[trigger] self.polls@[j]).chat_id == chat_id as int && (
                    self.polls@[j].poll_kind matches PollKindView::Plan { plan_id: pid } && pid
                        == plan_id@)),
            decreases n - i,
        {
            proof {
                assert(all@[i as int]@ == self.polls@[i as int]);
            }
            if all[i].chat_id == chat_id {
                let matched = match &all[i].poll_kind {
                    crate::poll::PollKind::Plan { plan_id: pid } => *pid == *plan_id,
                    _ => false,
                };
                if matched {
                    let p = all[i].duplicate();
                    return Some(p);
                }
            }
            i = i + 1;
        }
        None
    }

    /// The chat's current plan, if one exists.
    pub fn first_plan(&self, chat_id: i64) -> (r: Option<Plan>)
        ensures
            match r {
                Some(p) => self.plans@.contains(p@) && p@.chat_id == chat_id as int,
                None => forall|i: int|
                    0 <= i < self.plans@.len() ==> (#[trigger] self.plans@[i]).chat_id != chat_id as int,
            },
    {
        let all = self.plans.all();
        let n = all.len();
        let mut i: usize = 0;
        while i < n
            invariant
                0 <= i <= n,
                n == self.plans@.len(),
                views_of(all@) == self.plans@,
                forall|j: int| 0 <= j < i ==> (#[trigger] self.plans@[j]).chat_id != chat_id as int,
            decreases n - i,
        {
            proof {
                assert(all@[i as int]@ == self.plans@[i as int]);
            }
            if all[i].chat_id == chat_id {
                let p = all[i].duplicate();
                return Some(p);
            }
            i = i + 1;
        }
        None
    }

    /// All meals of this chat whose name equals `name` with case folded away.
    pub fn meals_by_name(&self, chat_id: i64, name: &String) -> (r: Vec<Meal>)
        ensures
            views_of(r@) == self.meals@.filter(name_matches(chat_id as int, upper_of(name@))),
    {
        let ghost pred = name_matches(chat_id as int, upper_of(name@));
        let upper_query = to_upper(name.as_str());
        let all = self.meals.all();
        let n = all.len();
        let mut out: Vec<Meal> = Vec::new();
        let mut i: usize = 0;
        proof {
            reveal(Seq::filter);
            assert(views_of(out@) =~= self.meals@.take(0).filter(pred));
        }
        while i < n
            invariant
                0 <= i <= n,
                n == self.meals@.len(),
                views_of(all@) == self.meals@,
                upper_query@ == upper_of(name@),
                views_of(out@) == self.meals@.take(i as int).filter(pred),
                pred == name_matches(chat_id as int, upper_of(name@)),
            decreases n - i,
        {
            proof {
                reveal(Seq::filter);
                assert(all@[i as int]@ == self.meals@[i as int]);
                assert(self.meals@.take(i as int + 1).drop_last() =~= self.meals@.take(i as int));
                assert(self.meals@.take(i as int + 1).last() == self.meals@[i as int]);
            }
            let chat_ok = all[i].chat_id == chat_id;
            let meal_upper = to_upper(all[i].name.as_str());
            if chat_ok && meal_upper == upper_query {
                let ghost prevv = out@;
                let m = all[i].duplicate();
                out.push(m);
                proof {
                    crate::store::lemma_views_push(prevv, out@.last());
                    assert(out@ =~= prevv.push(out@.last()));
                    assert(views_of(out@) =~= self.meals@.take(i as int + 1).filter(pred));
                }
            } else {
                proof {
                    assert(views_of(out@) =~= self.meals@.take(i as int + 1).filter(pred));
                }
            }
            i = i + 1;
        }
        proof {
            assert(self.meals@.take(n as int) =~= self.meals@);
        }
        out
    }
}

} // verus!
