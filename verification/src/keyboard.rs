use vstd::prelude::*;
use crate::button::{
    lemma_row_views_push, lemma_rows_views_push, row_views, rows_views, Button, ButtonView,
    CallbackButton,
};
use crate::ident::{fresh_id, id_wf, payload_of};
use crate::state::State;
use crate::store::{added, has_entry, EntryView, HasId};
use crate::text::upper_of;

verus! {

/// One row of buttons, each stamped as owned by the keyboard `id`.
pub open spec fn stamp_row(row: Seq<ButtonView>, id: Seq<char>) -> Seq<ButtonView> {
    row.map_values(|b: ButtonView| ButtonView { keyboard_id: Some(id), ..b })
}

/// A whole grid of buttons stamped as owned by the keyboard `id`.
pub open spec fn stamp_rows(rows: Seq<Seq<ButtonView>>, id: Seq<char>) -> Seq<Seq<ButtonView>> {
    rows.map_values(|row: Seq<ButtonView>| stamp_row(row, id))
}

/// The model of a [`Keyboard`].
pub struct KeyboardView {
    pub id: Seq<char>,
    pub chat_id: int,
    pub buttons: Seq<Seq<ButtonView>>,
}

impl EntryView for KeyboardView {
    open spec fn vid(&self) -> Seq<char> {
        self.id
    }

    open spec fn vchat(&self) -> int {
        self.chat_id
    }
}

impl KeyboardView {
    /// Every button of a built keyboard carries the keyboard's own id, so a
    /// click on it resolves against exactly this grid.
    pub open spec fn wf(&self) -> bool {
        &&& id_wf(self.id)
        &&& forall|i: int, j: int|
            0 <= i < self.buttons.len() && 0 <= j < self.buttons[i].len() ==> {
                &&& (#[trigger] self.buttons[i][j]).keyboard_id == Some(self.id)
                &&& self.buttons[i][j].wf()
            }
    }

    /// Whether any button is on the grid at all.
    pub open spec fn has_buttons(&self) -> bool {
        exists|i: int| 0 <= i < self.buttons.len() && self.buttons[i].len() > 0
    }
}

/// A rendered button grid with its correlation id: the durable, addressable
/// object that a later click is resolved against.
pub struct Keyboard {
    pub id: String,
    pub chat_id: i64,
    pub buttons: Vec<Vec<Button>>,
}

impl View for Keyboard {
    type V = KeyboardView;

    open spec fn view(&self) -> KeyboardView {
        KeyboardView {
            id: self.id@,
            chat_id: self.chat_id as int,
            buttons: rows_views(self.buttons@),
        }
    }
}

/// A copy of one row of buttons.
fn duplicate_row(row: &Vec<Button>) -> (r: Vec<Button>)
    ensures
        row_views(r@) == row_views(row@),
{
    let n = row.len();
    let mut out: Vec<Button> = Vec::new();
    let mut i: usize = 0;
    proof {
        assert(row_views(out@) =~= row_views(row@).take(0));
    }
    while i < n
        invariant
            0 <= i <= n,
            n == row@.len(),
            row_views(out@) == row_views(row@).take(i as int),
        decreases n - i,
    {
        let ghost prevv = out@;
        let b = row[i].duplicate();
        let ghost bv = b@;
        out.push(b);
        proof {
            lemma_row_views_push(prevv, out@.last());
            assert(out@ =~= prevv.push(out@.last()));
            assert(row_views(out@) =~= row_views(row@).take(i as int + 1));
        }
        i = i + 1;
    }
    proof {
        assert(row_views(row@).take(n as int) =~= row_views(row@));
    }
    out
}

/// One row of buttons, each copied and stamped as owned by keyboard `id`.
fn stamp_row_exec(row: &Vec<Button>, id: &String) -> (r: Vec<Button>)
    ensures
        row_views(r@) == stamp_row(row_views(row@), id@),
{
    let n = row.len();
    let mut out: Vec<Button> = Vec::new();
    let mut i: usize = 0;
    proof {
        assert(row_views(out@) =~= stamp_row(row_views(row@), id@).take(0));
    }
    while i < n
        invariant
            0 <= i <= n,
            n == row@.len(),
            row_views(out@) == stamp_row(row_views(row@), id@).take(i as int),
        decreases n - i,
    {
        let ghost prevv = out@;
        let b = row[i].with_keyboard(id);
        let ghost bv = b@;
        out.push(b);
        proof {
            lemma_row_views_push(prevv, out@.last());
            assert(out@ =~= prevv.push(out@.last()));
            assert(row_views(out@) =~= stamp_row(row_views(row@), id@).take(i as int + 1));
        }
        i = i + 1;
    }
    proof {
        assert(stamp_row(row_views(row@), id@).take(n as int) =~= stamp_row(
            row_views(row@),
            id@,
        ));
    }
    out
}

impl HasId for Keyboard {
    fn id(&self) -> (r: String)
        ensures
            r@ == self@.vid(),
    {
        self.id.clone()
    }

    fn chat_id(&self) -> (r: i64)
        ensures
            r as int == self@.vchat(),
    {
        self.chat_id
    }

    fn duplicate(&self) -> (r: Self)
        ensures
            r@ == self@,
    {
        let n = self.buttons.len();
        let mut rows: Vec<Vec<Button>> = Vec::new();
        let mut i: usize = 0;
        proof {
            assert(rows_views(rows@) =~= rows_views(self.buttons@).take(0));
        }
        while i < n
            invariant
                0 <= i <= n,
                n == self.buttons@.len(),
                rows_views(rows@) == rows_views(self.buttons@).take(i as int),
            decreases n - i,
        {
            let ghost prevv = rows@;
            let row = duplicate_row(&self.buttons[i]);
            rows.push(row);
            proof {
                lemma_rows_views_push(prevv, rows@.last());
                assert(rows@ =~= prevv.push(rows@.last()));
                assert(rows_views(rows@) =~= rows_views(self.buttons@).take(i as int + 1));
            }
            i = i + 1;
        }
        proof {
            assert(rows_views(self.buttons@).take(n as int) =~= rows_views(self.buttons@));
        }
        let r = Keyboard { id: self.id.clone(), chat_id: self.chat_id, buttons: rows };
        r
    }
}

impl Keyboard {
    /// A fresh, empty keyboard scoped to one chat.
    pub fn new(chat_id: i64) -> (r: Self)
        ensures
            r@.chat_id == chat_id as int,
            r@.buttons == Seq::<Seq<ButtonView>>::empty(),
            id_wf(r@.id),
    {
        let r = Keyboard { id: fresh_id(), chat_id, buttons: Vec::new() };
        proof {
            assert(r@.buttons =~= Seq::<Seq<ButtonView>>::empty());
        }
        r
    }

    /// Fills the grid, stamping every button with this keyboard's id: from now
    /// on a click on any of them correlates back to this keyboard.
    pub fn buttons(self, buttons: Vec<Vec<Button>>) -> (r: Self)
        ensures
            r@.id == self@.id,
            r@.chat_id == self@.chat_id,
            r@.buttons == stamp_rows(rows_views(buttons@), self@.id),
    {
        let n = buttons.len();
        let mut rows: Vec<Vec<Button>> = Vec::new();
        let mut i: usize = 0;
        proof {
            assert(rows_views(rows@) =~= stamp_rows(rows_views(buttons@), self.id@).take(0));
        }
        while i < n
            invariant
                0 <= i <= n,
                n == buttons@.len(),
                rows_views(rows@) == stamp_rows(rows_views(buttons@), self.id@).take(i as int),
            decreases n - i,
        {
            let ghost prevv = rows@;
            let row = stamp_row_exec(&buttons[i], &self.id);
            rows.push(row);
            proof {
                lemma_rows_views_push(prevv, rows@.last());
                assert(rows@ =~= prevv.push(rows@.last()));
                assert(rows_views(rows@) =~= stamp_rows(rows_views(buttons@), self.id@).take(
                    i as int + 1,
                ));
            }
            i = i + 1;
        }
        proof {
            assert(stamp_rows(rows_views(buttons@), self.id@).take(n as int) =~= stamp_rows(
                rows_views(buttons@),
                self.id@,
            ));
        }
        Keyboard { id: self.id, chat_id: self.chat_id, buttons: rows }
    }

    /// Finds the button a click named, by its id.
    pub fn get_btn(&self, button_id: String) -> (r: Option<&Button>)
        ensures
            match r {
                Some(b) => {
                    &&& b@.id == button_id@
                    &&& exists|i: int, j: int|
                        0 <= i < self@.buttons.len() && 0 <= j < self@.buttons[i].len()
                            && self@.buttons[i][j] == b@
                },
                None => forall|i: int, j: int|
                    0 <= i < self@.buttons.len() && 0 <= j < self@.buttons[i].len() ==> (
                    #[trigger] self@.buttons[i][j]).id != button_id@,
            },
    {
        let rows = self.buttons.len();
        let mut i: usize = 0;
        while i < rows
            invariant
                0 <= i <= rows,
                rows == self@.buttons.len(),
                self@.buttons == rows_views(self.buttons@),
                forall|p: int, q: int|
                    0 <= p < i && 0 <= q < self@.buttons[p].len() ==> (
                    #[trigger] self@.buttons[p][q]).id != button_id@,
            decreases rows - i,
        {
            let row = &self.buttons[i];
            let cols = row.len();
            let mut j: usize = 0;
            while j < cols
                invariant
                    0 <= j <= cols,
                    0 <= i < rows,
                    rows == self@.buttons.len(),
                    self@.buttons == rows_views(self.buttons@),
                    row_views(row@) == self@.buttons[i as int],
                    cols == self@.buttons[i as int].len(),
                    forall|q: int|
                        0 <= q < j ==> (#[trigger] self@.buttons[i as int][q]).id != button_id@,
                decreases cols - j,
            {
                if row[j].id == button_id {
                    proof {
                        assert(self@.buttons[i as int][j as int] == row@[j as int]@);
                    }
                    return Some(&row[j]);
                }
                j = j + 1;
            }
            i = i + 1;
        }
        None
    }

    /// The renderable grid: every button with its uppercased label and its
    /// correlation payload.
    pub fn inline_keyboard(&self) -> (r: Vec<Vec<CallbackButton>>)
        ensures
            r@.len() == self@.buttons.len(),
            forall|i: int| 0 <= i < r@.len() ==> #[trigger] r@[i]@.len() == self@.buttons[i].len(),
            forall|i: int, j: int|
                0 <= i < r@.len() && 0 <= j < r@[i]@.len() ==> {
                    &&& (#[trigger] r@[i]@[j]).text@ == upper_of(self@.buttons[i][j].text)
                    &&& r@[i]@[j].data@ == payload_of(
                        self@.buttons[i][j].keyboard_id,
                        self@.buttons[i][j].id,
                    )
                },
    {
        let rows = self.buttons.len();
        let mut out: Vec<Vec<CallbackButton>> = Vec::new();
        let mut i: usize = 0;
        while i < rows
            invariant
                0 <= i <= rows,
                rows == self@.buttons.len(),
                self@.buttons == rows_views(self.buttons@),
                out@.len() == i,
                forall|p: int| 0 <= p < i ==> #[trigger] out@[p]@.len() == self@.buttons[p].len(),
                forall|p: int, q: int|
                    0 <= p < i && 0 <= q < out@[p]@.len() ==> {
                        &&& (#[trigger] out@[p]@[q]).text@ == upper_of(self@.buttons[p][q].text)
                        &&& out@[p]@[q].data@ == payload_of(
                            self@.buttons[p][q].keyboard_id,
                            self@.buttons[p][q].id,
                        )
                    },
            decreases rows - i,
        {
            let row = &self.buttons[i];
            let cols = row.len();
            let mut rendered: Vec<CallbackButton> = Vec::new();
            let mut j: usize = 0;
            while j < cols
                invariant
                    0 <= j <= cols,
                    0 <= i < rows,
                    rows == self@.buttons.len(),
                    self@.buttons == rows_views(self.buttons@),
                    row_views(row@) == self@.buttons[i as int],
                    cols == self@.buttons[i as int].len(),
                    rendered@.len() == j,
                    forall|q: int|
                        0 <= q < j ==> {
                            &&& (#[trigger] rendered@[q]).text@ == upper_of(
                                self@.buttons[i as int][q].text,
                            )
                            &&& rendered@[q].data@ == payload_of(
                                self@.buttons[i as int][q].keyboard_id,
                                self@.buttons[i as int][q].id,
                            )
                        },
                decreases cols - j,
            {
                rendered.push(row[j].callback_button());
                j = j + 1;
            }
            out.push(rendered);
            i = i + 1;
        }
        out
    }
}

/// A grid built by stamping well-formed rows is a well-formed keyboard.
pub proof fn lemma_built_keyboard_wf(kbv: KeyboardView, rows: Seq<Seq<ButtonView>>)
    requires
        kbv.buttons == stamp_rows(rows, kbv.id),
        id_wf(kbv.id),
        forall|i: int, j: int|
            0 <= i < rows.len() && 0 <= j < rows[i].len() ==> id_wf((#[trigger] rows[i][j]).id)
                && rows[i][j].kind.wf(),
    ensures
        kbv.wf(),
{
    assert forall|i: int, j: int|
        0 <= i < kbv.buttons.len() && 0 <= j < kbv.buttons[i].len() implies {
        &&& (#[trigger] kbv.buttons[i][j]).keyboard_id == Some(kbv.id)
        &&& kbv.buttons[i][j].wf()
    } by {
        assert(kbv.buttons[i] == stamp_row(rows[i], kbv.id));
        assert(kbv.buttons[i][j] == (ButtonView { keyboard_id: Some(kbv.id), ..rows[i][j] }));
    }
}

impl Keyboard {
    /// Persists the keyboard in the registry, keyed by its id, so that a
    /// click can be resolved back to it. A keyboard without buttons is never
    /// persisted: there would be nothing to resolve.
    pub fn save(self, state: &mut State) -> (r: Self)
        requires
            old(state).wf(),
            self@.wf(),
        ensures
            final(state).wf(),
            r@ == self@,
            final(state).meals == old(state).meals,
            final(state).plans == old(state).plans,
            final(state).polls == old(state).polls,
            final(state).whitelist == old(state).whitelist,
            final(state).config == old(state).config,
            (if self@.has_buttons() {
                added(old(state).keyboards@, final(state).keyboards@, self@)
            } else {
                final(state).keyboards == old(state).keyboards
            }),
    {
        let n = self.buttons.len();
        let mut nonempty = false;
        let mut i: usize = 0;
        while i < n
            invariant
                0 <= i <= n,
                n == self@.buttons.len(),
                self@.buttons == rows_views(self.buttons@),
                nonempty == exists|j: int| 0 <= j < i && self@.buttons[j].len() > 0,
            decreases n - i,
        {
            if self.buttons[i].len() > 0 {
                proof {
                    assert(self@.buttons[i as int].len() > 0);
                }
                nonempty = true;
            }
            i = i + 1;
        }
        if nonempty {
            let dup = self.duplicate();
            state.keyboards.add(dup);
        }
        self
    }

    /// Takes the keyboard out of the registry: its correlation id is spent,
    /// and a later click on it will resolve to nothing.
    pub fn remove(self, state: &mut State) -> (r: Self)
        requires
            old(state).wf(),
        ensures
            final(state).wf(),
            r@ == self@,
            final(state).meals == old(state).meals,
            final(state).plans == old(state).plans,
            final(state).polls == old(state).polls,
            final(state).whitelist == old(state).whitelist,
            final(state).config == old(state).config,
            !has_entry(final(state).keyboards@, self@.id),
            (if has_entry(old(state).keyboards@, self@.id) {
                exists|i: int|
                    0 <= i < old(state).keyboards@.len() && old(state).keyboards@[i].vid()
                        == self@.id && final(state).keyboards@ == old(state).keyboards@.remove(i)
            } else {
                final(state).keyboards@ == old(state).keyboards@
            }),
    {
        let removed = state.keyboards.remove(&self.id);
        proof {
            if removed is Some {
                let i = choose|i: int|
                    0 <= i < old(state).keyboards@.len() && old(state).keyboards@[i]
                        == removed->Some_0@ && final(state).keyboards@ == old(
                        state,
                    ).keyboards@.remove(i);
                assert(old(state).keyboards@[i].vid() == self@.id);
            }
        }
        self
    }
}

} // verus!
