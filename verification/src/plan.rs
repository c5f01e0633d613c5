use vstd::prelude::*;
use vstd::string::*;
use crate::button::{grid_shape, rows_views, Button, ButtonKind, ButtonKindView, ButtonView};
use crate::ident::{fresh_id, id_wf, random_bytes};
use crate::meal::{Meal, MealView};
use crate::store::{ids_unique, EntryView, HasId};
use crate::text::{to_upper, upper_of};

verus! {

/// The models of a sequence of meals.
pub open spec fn meal_views(s: Seq<Meal>) -> Seq<MealView> {
    s.map_values(|m: Meal| m@)
}

pub proof fn lemma_meal_views_push(s: Seq<Meal>, m: Meal)
    ensures
        meal_views(s.push(m)) == meal_views(s).push(m@),
{
    assert(meal_views(s.push(m)) =~= meal_views(s).push(m@));
}

/// A copy of a sequence of meals.
pub fn duplicate_meals(meals: &Vec<Meal>) -> (r: Vec<Meal>)
    ensures
        meal_views(r@) == meal_views(meals@),
{
    let n = meals.len();
    let mut out: Vec<Meal> = Vec::new();
    let mut i: usize = 0;
    proof {
        assert(meal_views(out@) =~= meal_views(meals@).take(0));
    }
    while i < n
        invariant
            0 <= i <= n,
            n == meals@.len(),
            meal_views(out@) == meal_views(meals@).take(i as int),
        decreases n - i,
    {
        let ghost prevv = out@;
        let m = meals[i].duplicate();
        out.push(m);
        proof {
            lemma_meal_views_push(prevv, out@.last());
            assert(out@ =~= prevv.push(out@.last()));
            assert(meal_views(out@) =~= meal_views(meals@).take(i as int + 1));
        }
        i = i + 1;
    }
    proof {
        assert(meal_views(meals@).take(n as int) =~= meal_views(meals@));
    }
    out
}

/// The model of a [`Plan`].
pub struct PlanView {
    pub meals: Seq<MealView>,
    pub days: int,
    pub chat_id: int,
    pub id: Seq<char>,
}

impl EntryView for PlanView {
    open spec fn vid(&self) -> Seq<char> {
        self.id
    }

    open spec fn vchat(&self) -> int {
        self.chat_id
    }
}

impl PlanView {
    /// A plan covers exactly as many days as it holds meals, and never the
    /// same meal twice.
    pub open spec fn wf(&self) -> bool {
        &&& id_wf(self.id)
        &&& self.days == self.meals.len()
        &&& ids_unique(self.meals)
        &&& forall|i: int| 0 <= i < self.meals.len() ==> (#[trigger] self.meals[i]).wf()
    }
}

/// A generated meal plan: one meal per day, drawn without repetition.
/// Superseded, never edited, on a reroll.
pub struct Plan {
    pub meals: Vec<Meal>,
    pub days: usize,
    pub chat_id: i64,
    pub id: String,
}

impl View for Plan {
    type V = PlanView;

    open spec fn view(&self) -> PlanView {
        PlanView {
            meals: meal_views(self.meals@),
            days: self.days as int,
            chat_id: self.chat_id as int,
            id: self.id@,
        }
    }
}

impl HasId for Plan {
    fn id(&self) -> (r: String)
        ensures
            r@ == self@.vid(),
    {
        self.id.clone()
    }

    fn chat_id(&self) -> (r: i64)
        ensures
            r as int == self@.vchat(),
    {
        self.chat_id
    }

    fn duplicate(&self) -> (r: Self)
        ensures
            r@ == self@,
    {
        Plan {
            meals: duplicate_meals(&self.meals),
            days: self.days,
            chat_id: self.chat_id,
            id: self.id.clone(),
        }
    }
}

/// The combined sampling weight of a pool of meals.
pub open spec fn weights_total(s: Seq<MealView>) -> int
    decreases s.len(),
{
    if s.len() == 0 {
        0
    } else {
        weights_total(s.drop_last()) + s.last().weight()
    }
}

proof fn lemma_weights_total_bounds(s: Seq<MealView>)
    requires
        forall|i: int| 0 <= i < s.len() ==> (#[trigger] s[i]).wf(),
    ensures
        s.len() <= weights_total(s) <= 5 * s.len(),
    decreases s.len(),
{
    if s.len() > 0 {
        assert(s.last().wf());
        lemma_weights_total_bounds(s.drop_last());
    }
}

/// Uniqueness of ids survives moving one pool entry over to the sample.
proof fn lemma_unique_transfer<V: EntryView>(rs: Seq<V>, ps: Seq<V>, k: int)
    requires
        ids_unique(rs + ps),
        0 <= k < ps.len(),
    ensures
        ids_unique(rs.push(ps[k]) + ps.remove(k)),
{
    let oldc = rs + ps;
    let newc = rs.push(ps[k]) + ps.remove(k);
    let n = rs.len() as int;
    assert(ps.remove(k) =~= ps.take(k) + ps.skip(k + 1));
    assert forall|i: int| 0 <= i < newc.len() implies newc[i] == oldc[
        spec_transfer_index(n, k, i)
    ] by {
        if i < n {
            assert(newc[i] == rs[i]);
        } else if i == n {
            assert(newc[i] == ps[k]);
        } else if i <= n + k {
            assert(newc[i] == ps.remove(k)[i - n - 1]);
            assert(ps.remove(k)[i - n - 1] == ps[i - n - 1]);
        } else {
            assert(newc[i] == ps.remove(k)[i - n - 1]);
            assert(ps.remove(k)[i - n - 1] == ps[i - n]);
        }
    }
    assert forall|p: int, q: int|
        0 <= p < q < newc.len() implies newc[p].vid() != newc[q].vid() by {
        let op = spec_transfer_index(n, k, p);
        let oq = spec_transfer_index(n, k, q);
        assert(newc[p] == oldc[op]);
        assert(newc[q] == oldc[oq]);
        if op < oq {
            assert(oldc[op].vid() != oldc[oq].vid());
        } else {
            assert(oq < op);
            assert(oldc[oq].vid() != oldc[op].vid());
        }
    }
}

/// Where the element at `i` of the transferred arrangement sat beforehand:
/// the sample keeps its places, the chosen entry comes from slot `k` of the
/// pool, and the remaining pool entries close the gap.
spec fn spec_transfer_index(n: int, k: int, i: int) -> int {
    if i < n {
        i
    } else if i == n {
        n + k
    } else if i <= n + k {
        i - 1
    } else {
        i
    }
}

/// Eight random bytes folded into one number.
fn random_u64() -> (r: u64) {
    let b = random_bytes(8);
    let r: u64 = b[0] as u64 + 0x100u64 * b[1] as u64 + 0x1_0000u64 * b[2] as u64
        + 0x100_0000u64 * b[3] as u64 + 0x1_0000_0000u64 * b[4] as u64 + 0x100_0000_0000u64
        * b[5] as u64 + 0x1_0000_0000_0000u64 * b[6] as u64 + 0x100_0000_0000_0000u64
        * b[7] as u64;
    r
}

/// The pool's combined sampling weight, as the draws see it.
fn total_weight(pool: &Vec<Meal>) -> (t: u128)
    requires
        forall|i: int| 0 <= i < pool@.len() ==> (#[trigger] meal_views(pool@)[i]).wf(),
    ensures
        t as int == weights_total(meal_views(pool@)),
{
    let n = pool.len();
    let mut acc: u128 = 0;
    let mut i: usize = 0;
    proof {
        assert(meal_views(pool@).take(0) =~= Seq::<MealView>::empty());
    }
    while i < n
        invariant
            0 <= i <= n,
            n == pool@.len(),
            forall|j: int| 0 <= j < n ==> (#[trigger] meal_views(pool@)[j]).wf(),
            acc as int == weights_total(meal_views(pool@).take(i as int)),
            acc as int <= 5 * (i as int),
        decreases n - i,
    {
        proof {
            assert(meal_views(pool@)[i as int].wf());
        }
        let w: u128 = match pool[i].rating {
            Some(r) => r as u128,
            None => 1u128,
        };
        proof {
            let s = meal_views(pool@);
            assert(w as int == s[i as int].weight());
            assert(w <= 5);
            assert(s.take(i as int + 1).drop_last() =~= s.take(i as int));
            assert(s.take(i as int + 1).last() == s[i as int]);
            assert(5 * (i as int) + 5 == 5 * (i as int + 1));
        }
        acc = acc + w;
        i = i + 1;
    }
    proof {
        assert(meal_views(pool@).take(n as int) =~= meal_views(pool@));
    }
    acc
}

/// Which meal a draw lands on: the pool is laid out as consecutive weight
/// bands, and the result is exactly the meal whose band the drawn point
/// falls in, so each draw selects a meal with chance proportional to its
/// weight.
fn pick_index(pool: &Vec<Meal>, target: u128) -> (k: usize)
    requires
        pool@.len() > 0,
        forall|i: int| 0 <= i < pool@.len() ==> (#[trigger] meal_views(pool@)[i]).wf(),
        target < weights_total(meal_views(pool@)),
    ensures
        k < pool@.len(),
        weights_total(meal_views(pool@).take(k as int)) <= target as int,
        (target as int) < weights_total(meal_views(pool@).take(k as int + 1)),
{
    let n = pool.len();
    let mut acc: u128 = 0;
    let mut i: usize = 0;
    proof {
        assert(meal_views(pool@).take(0) =~= Seq::<MealView>::empty());
    }
    while i < n
        invariant
            0 <= i <= n,
            n == pool@.len(),
            forall|j: int| 0 <= j < n ==> (#[trigger] meal_views(pool@)[j]).wf(),
            (target as int) < weights_total(meal_views(pool@)),
            acc as int == weights_total(meal_views(pool@).take(i as int)),
            acc <= target,
        decreases n - i,
    {
        proof {
            assert(meal_views(pool@)[i as int].wf());
        }
        let w: u128 = match pool[i].rating {
            Some(r) => r as u128,
            None => 1u128,
        };
        proof {
            let s = meal_views(pool@);
            assert(w as int == s[i as int].weight());
            assert(s.take(i as int + 1).drop_last() =~= s.take(i as int));
            assert(s.take(i as int + 1).last() == s[i as int]);
        }
        if target - acc < w {
            return i;
        }
        acc = acc + w;
        i = i + 1;
    }
    proof {
        assert(meal_views(pool@).take(n as int) =~= meal_views(pool@));
        assert(false);
    }
    0
}

impl Plan {
    /// A plan that simply lists the given meals, one per day.
    pub fn new(chat_id: i64, meals: Vec<Meal>) -> (r: Self)
        requires
            ids_unique(meal_views(meals@)),
            forall|i: int| 0 <= i < meals@.len() ==> (#[trigger] meal_views(meals@)[i]).wf(),
        ensures
            r@.meals == meal_views(meals@),
            r@.days == meals@.len(),
            r@.chat_id == chat_id as int,
            r@.wf(),
            id_wf(r@.id),
    {
        let days = meals.len();
        Plan { chat_id, meals, days, id: fresh_id() }
    }

    /// Draws `amount` meals without replacement, each draw weighted by the
    /// meal's rating (unrated meals weigh one, so they are never excluded).
    /// When fewer meals exist than days were asked for, the plan simply
    /// covers fewer days.
    pub fn gen(chat_id: i64, meals: Vec<Meal>, amount: usize) -> (r: Self)
        requires
            ids_unique(meal_views(meals@)),
            forall|i: int| 0 <= i < meals@.len() ==> (#[trigger] meal_views(meals@)[i]).wf(),
        ensures
            r@.wf(),
            r@.chat_id == chat_id as int,
            r@.meals.len() == (if amount <= meals@.len() {
                amount as int
            } else {
                meals@.len() as int
            }),
            forall|i: int|
                0 <= i < r@.meals.len() ==> meal_views(meals@).contains(#[trigger] r@.meals[i]),
    {
        let ghost input = meal_views(meals@);
        let mut pool = meals;
        let mut picked: Vec<Meal> = Vec::new();
        proof {
            assert(meal_views(picked@) + meal_views(pool@) =~= input);
        }
        while picked.len() < amount && pool.len() > 0
            invariant
                picked@.len() + pool@.len() <= input.len(),
                picked@.len() <= amount,
                ids_unique(meal_views(picked@) + meal_views(pool@)),
                picked@.len() < amount ==> picked@.len() + pool@.len() == input.len(),
                forall|i: int|
                    0 <= i < pool@.len() ==> input.contains(#[trigger] meal_views(pool@)[i]),
                forall|i: int|
                    0 <= i < picked@.len() ==> input.contains(#[trigger] meal_views(picked@)[i]),
                forall|i: int| 0 <= i < pool@.len() ==> (#[trigger] meal_views(pool@)[i]).wf(),
                forall|i: int| 0 <= i < picked@.len() ==> (#[trigger] meal_views(picked@)[i]).wf(),
            decreases pool@.len(),
        {
            let total = total_weight(&pool);
            proof {
                lemma_weights_total_bounds(meal_views(pool@));
            }
            let draw = random_u64();
            let target = (draw as u128) % total;
            let k = pick_index(&pool, target);
            let ghost rs = meal_views(picked@);
            let ghost ps = meal_views(pool@);
            let chosen = pool.remove(k);
            let ghost cv = chosen@;
            picked.push(chosen);
            proof {
                assert(cv == ps[k as int]);
                assert(meal_views(picked@) =~= rs.push(cv));
                assert(meal_views(pool@) =~= ps.remove(k as int));
                lemma_unique_transfer(rs, ps, k as int);
                assert(rs.push(cv) + ps.remove(k as int) =~= meal_views(picked@) + meal_views(
                    pool@,
                ));
                assert forall|i: int|
                    0 <= i < pool@.len() implies input.contains(
                    #[trigger] meal_views(pool@)[i],
                ) by {
                    if i < k as int {
                        assert(meal_views(pool@)[i] == ps[i]);
                    } else {
                        assert(meal_views(pool@)[i] == ps[i + 1]);
                    }
                }
                assert forall|i: int|
                    0 <= i < pool@.len() implies (#[trigger] meal_views(pool@)[i]).wf() by {
                    if i < k as int {
                        assert(meal_views(pool@)[i] == ps[i]);
                        assert(ps[i].wf());
                    } else {
                        assert(meal_views(pool@)[i] == ps[i + 1]);
                        assert(ps[i + 1].wf());
                    }
                }
                assert forall|i: int|
                    0 <= i < picked@.len() implies (#[trigger] meal_views(picked@)[i]).wf() by {
                    if i < rs.len() {
                        assert(meal_views(picked@)[i] == rs[i]);
                    } else {
                        assert(meal_views(picked@)[i] == cv);
                        assert(ps[k as int].wf());
                    }
                }
            }
        }
        let days = picked.len();
        proof {
            let rs = meal_views(picked@);
            let ps = meal_views(pool@);
            assert forall|p: int, q: int|
                0 <= p < q < rs.len() implies rs[p].vid() != rs[q].vid() by {
                assert((rs + ps)[p] == rs[p] && (rs + ps)[q] == rs[q]);
            }
        }
        Plan { chat_id, meals: picked, days, id: fresh_id() }
    }

    /// The info buttons for a plan's meals, four to a row: clicking one shows
    /// that meal.
    pub fn buttons(&self) -> (r: Vec<Vec<Button>>)
        ensures
            grid_shape(rows_views(r@), self@.meals.len() as int),
            forall|i: int, j: int|
                0 <= i < r@.len() && 0 <= j < r@[i]@.len() ==> {
                    &&& 0 <= 4 * i + j < self@.meals.len()
                    &&& ((#[trigger] r@[i]@[j])@.kind matches ButtonKindView::DisplayPlanMeal {
                        meal_id,
                        plan_id,
                    } && meal_id == self@.meals[4 * i + j].id && plan_id == self@.id)
                    &&& r@[i]@[j]@.text == self@.meals[4 * i + j].name
                    &&& id_wf(r@[i]@[j]@.id)
                },
    {
        let total = self.meals.len();
        let mut rows: Vec<Vec<Button>> = Vec::new();
        let mut done: usize = 0;
        while done < total
            invariant
                0 <= done <= total,
                total == self@.meals.len(),
                self@.meals == meal_views(self.meals@),
                done < total ==> done == rows@.len() * 4,
                done == total ==> rows@.len() == (total + 3) / 4,
                forall|i: int|
                    0 <= i < rows@.len() ==> #[trigger] rows@[i]@.len() == (if 4 * i + 4
                        <= total {
                        4int
                    } else {
                        total - 4 * i
                    }),
                forall|i: int, j: int|
                    0 <= i < rows@.len() && 0 <= j < rows@[i]@.len() ==> {
                        &&& 0 <= 4 * i + j < self@.meals.len()
                        &&& ((#[trigger] rows@[i]@[j])@.kind
                            matches ButtonKindView::DisplayPlanMeal { meal_id, plan_id } && meal_id
                            == self@.meals[4 * i + j].id && plan_id == self@.id)
                        &&& rows@[i]@[j]@.text == self@.meals[4 * i + j].name
                        &&& id_wf(rows@[i]@[j]@.id)
                    },
            decreases total - done,
        {
            let mut row: Vec<Button> = Vec::new();
            let start = done;
            let ghost rowindex = rows@.len() as int;
            let mut j: usize = 0;
            while j < 4 && start + j < total
                invariant
                    0 <= j <= 4,
                    start + j <= total,
                    start == rowindex * 4,
                    rowindex >= 0,
                    total == self@.meals.len(),
                    self@.meals == meal_views(self.meals@),
                    row@.len() == j,
                    forall|q: int|
                        0 <= q < j ==> {
                            &&& 0 <= start + q < self@.meals.len()
                            &&& ((#[trigger] row@[q])@.kind
                                matches ButtonKindView::DisplayPlanMeal { meal_id, plan_id }
                                && meal_id == self@.meals[start + q].id && plan_id == self@.id)
                            &&& row@[q]@.text == self@.meals[start + q].name
                            &&& id_wf(row@[q]@.id)
                        },
                decreases 4 - j,
            {
                let meal = &self.meals[start + j];
                let button = Button::new(
                    meal.name.clone(),
                    ButtonKind::DisplayPlanMeal {
                        meal_id: meal.id.clone(),
                        plan_id: self.id.clone(),
                    },
                );
                row.push(button);
                j = j + 1;
            }
            let ghost prevrows = rows@;
            rows.push(row);
            done = start + j;
            proof {
                let k = prevrows.len() as int;
                assert(1 <= j);
                assert(rows@[k]@.len() == j as int);
                assert(j as int == (if 4 * k + 4 <= total {
                    4int
                } else {
                    total - 4 * k
                }));
                assert forall|i: int|
                    0 <= i < rows@.len() implies #[trigger] rows@[i]@.len() == (if 4 * i + 4
                    <= total {
                    4int
                } else {
                    total - 4 * i
                }) by {
                    if i < k {
                        assert(rows@[i] == prevrows[i]);
                    }
                }
                if done == total {
                    assert(4 * (k + 1) <= total + 3 && total + 3 < 4 * (k + 2));
                    assert((total + 3) / 4 == k + 1) by (nonlinear_arith)
                        requires
                            4 * (k + 1) <= total + 3 < 4 * (k + 2),
                            k >= 0,
                    ;
                }
            }
        }
        proof {
            if total == 0 {
                assert(rows@.len() == 0);
            }
            assert(grid_shape(rows_views(rows@), total as int)) by {
                assert(rows_views(rows@).len() == rows@.len());
                assert forall|i: int|
                    0 <= i < rows_views(rows@).len() implies #[trigger] rows_views(rows@)[i].len()
                    == (if 4 * i + 4 <= total {
                    4int
                } else {
                    total - 4 * i
                }) by {
                    assert(rows_views(rows@)[i] == crate::button::row_views(rows@[i]@));
                }
            }
        }
        rows
    }
}

/// One poll option line for a meal: its uppercased name and its star level.
pub open spec fn answer_line(m: MealView) -> Seq<char> {
    upper_of(m.name) + " ("@ + crate::text::digit_of(m.weight()) + "\u{2b50})"@
}

/// The poll option lines for a whole plan.
pub open spec fn answers_of(meals: Seq<MealView>) -> Seq<Seq<char>> {
    meals.map_values(|m: MealView| answer_line(m))
}

impl Plan {
    /// The option lines of the plan's preference poll, one per meal.
    pub fn answers(&self) -> (r: Vec<String>)
        requires
            forall|i: int| 0 <= i < self@.meals.len() ==> (#[trigger] self@.meals[i]).wf(),
        ensures
            crate::text::str_views(r@) == answers_of(self@.meals),
    {
        let n = self.meals.len();
        let mut out: Vec<String> = Vec::new();
        let mut i: usize = 0;
        proof {
            assert(crate::text::str_views(out@) =~= answers_of(self@.meals).take(0));
        }
        while i < n
            invariant
                0 <= i <= n,
                n == self@.meals.len(),
                self@.meals == meal_views(self.meals@),
                forall|j: int| 0 <= j < n ==> (#[trigger] self@.meals[j]).wf(),
                crate::text::str_views(out@) == answers_of(self@.meals).take(i as int),
            decreases n - i,
        {
            let meal = &self.meals[i];
            proof {
                assert(self@.meals[i as int].wf());
            }
            let w: u8 = match meal.rating {
                Some(r) => r,
                None => 1u8,
            };
            let mut line = to_upper(meal.name.as_str());
            line.append(" (");
            let digit = crate::text::digit_string(w);
            line.append(digit.as_str());
            line.append("\u{2b50})");
            let ghost prevv = out@;
            proof {
                assert(line@ == answer_line(self@.meals[i as int]));
            }
            out.push(line);
            proof {
                crate::text::lemma_str_views_push(prevv, out@.last());
                assert(out@ =~= prevv.push(out@.last()));
                assert(crate::text::str_views(out@) =~= answers_of(self@.meals).take(i as int + 1));
            }
            i = i + 1;
        }
        proof {
            assert(answers_of(self@.meals).take(n as int) =~= answers_of(self@.meals));
        }
        out
    }
}

} // verus!
