use vstd::prelude::*;

verus! {

/// The mathematical model of a stored entry: it knows its own correlation id
/// and the chat it belongs to.
pub trait EntryView {
    /// The id under which the entry is filed.
    spec fn vid(&self) -> Seq<char>;

    /// The chat the entry belongs to.
    spec fn vchat(&self) -> int;
}

/// An entry that can be filed in a [`Store`].
pub trait HasId: View + Sized where Self::V: EntryView {
    fn id(&self) -> (r: String)
        ensures
            r@ == self@.vid(),
    ;

    fn chat_id(&self) -> (r: i64)
        ensures
            r as int == self@.vchat(),
    ;

    /// A copy of the entry with the same model.
    fn duplicate(&self) -> (r: Self)
        ensures
            r@ == self@,
    ;
}

/// The models of a sequence of entries.
pub open spec fn views_of<T: HasId>(s: Seq<T>) -> Seq<T::V> where T::V: EntryView {
    s.map_values(|t: T| t@)
}

/// The model of a pushed entry sequence is the pushed model sequence.
pub proof fn lemma_views_push<T: HasId>(s: Seq<T>, t: T)
    where T::V: EntryView
    ensures
        views_of(s.push(t)) == views_of(s).push(t@),
{
    assert(views_of(s.push(t)) =~= views_of(s).push(t@));
}

/// No two entries are filed under the same id.
pub open spec fn ids_unique<V: EntryView>(s: Seq<V>) -> bool {
    forall|i: int, j: int| 0 <= i < j < s.len() ==> s[i].vid() != s[j].vid()
}

/// Some entry of `s` is filed under `id`.
pub open spec fn has_entry<V: EntryView>(s: Seq<V>, id: Seq<char>) -> bool {
    exists|i: int| 0 <= i < s.len() && s[i].vid() == id
}

/// How a store looks after filing `v`: replaced in place if the id was
/// known, appended otherwise.
pub open spec fn added<V: EntryView>(s0: Seq<V>, s1: Seq<V>, v: V) -> bool {
    &&& has_entry(s1, v.vid())
    &&& if has_entry(s0, v.vid()) {
        exists|i: int| 0 <= i < s0.len() && s0[i].vid() == v.vid() && s1 == s0.update(i, v)
    } else {
        s1 == s0.push(v)
    }
}

/// The entries that belong to one chat.
pub open spec fn by_chat<V: EntryView>(chat: int) -> spec_fn(V) -> bool {
    |v: V| v.vchat() == chat
}

/// The entry filed under `id`. Meaningful only when some entry carries `id`;
/// with unique ids it is that entry.
pub open spec fn entry_of<V: EntryView>(s: Seq<V>, id: Seq<char>) -> V {
    s[choose|i: int| 0 <= i < s.len() && s[i].vid() == id]
}

/// In a store with unique ids, `entry_of` returns exactly the entry at any
/// index that carries the id.
pub proof fn lemma_entry_of<V: EntryView>(s: Seq<V>, id: Seq<char>, i: int)
    requires
        ids_unique(s),
        0 <= i < s.len(),
        s[i].vid() == id,
    ensures
        has_entry(s, id),
        entry_of(s, id) == s[i],
{
    assert(has_entry(s, id));
    let j = choose|j: int| 0 <= j < s.len() && s[j].vid() == id;
    if i < j {
        assert(s[i].vid() != s[j].vid());
    } else if j < i {
        assert(s[j].vid() != s[i].vid());
    }
}

/// In a store with unique ids, an id pins its entry down.
pub proof fn lemma_entry_unique<V: EntryView>(s: Seq<V>, a: V, b: V)
    requires
        ids_unique(s),
        s.contains(a),
        s.contains(b),
        a.vid() == b.vid(),
    ensures
        a == b,
{
    let i = choose|i: int| 0 <= i < s.len() && s[i] == a;
    let j = choose|j: int| 0 <= j < s.len() && s[j] == b;
    if i != j {
        assert(s[i].vid() != s[j].vid());
    }
}

/// Filing one entry never loses any other id already present.
pub proof fn lemma_added_preserves<V: EntryView>(s0: Seq<V>, s1: Seq<V>, v: V, id: Seq<char>)
    requires
        added(s0, s1, v),
        has_entry(s0, id),
    ensures
        has_entry(s1, id),
{
    let k = choose|k: int| 0 <= k < s0.len() && s0[k].vid() == id;
    if has_entry(s0, v.vid()) {
        let i = choose|i: int| 0 <= i < s0.len() && s0[i].vid() == v.vid() && s1 == s0.update(i, v);
        if k == i {
            assert(s1[i].vid() == v.vid());
        } else {
            assert(s1[k] == s0[k]);
        }
    } else {
        assert(s1[k] == s0[k]);
    }
}

/// Filtering keeps ids unique, and every kept entry comes from the unfiltered sequence.
pub proof fn lemma_filter_unique<V: EntryView>(s: Seq<V>, pred: spec_fn(V) -> bool)
    requires
        ids_unique(s),
    ensures
        ids_unique(s.filter(pred)),
        forall|i: int|
            0 <= i < s.filter(pred).len() ==> s.contains(#[trigger] s.filter(pred)[i]),
    decreases s.len(),
{
    reveal(Seq::filter);
    if s.len() > 0 {
        let prev = s.drop_last();
        assert(ids_unique(prev));
        lemma_filter_unique(prev, pred);
        let f = s.filter(pred);
        let fp = prev.filter(pred);
        assert forall|i: int| 0 <= i < fp.len() implies s.contains(#[trigger] fp[i]) by {
            assert(prev.contains(fp[i]));
            let k = choose|k: int| 0 <= k < prev.len() && prev[k] == fp[i];
            assert(s[k] == fp[i]);
        }
        if pred(s.last()) {
            assert(f == fp.push(s.last()));
            assert forall|p: int, q: int| 0 <= p < q < f.len() implies f[p].vid() != f[q].vid() by {
                if q < fp.len() {
                    assert(f[p] == fp[p] && f[q] == fp[q]);
                } else {
                    assert(f[q] == s.last());
                    assert(f[p] == fp[p]);
                    assert(prev.contains(fp[p]));
                    let k = choose|k: int| 0 <= k < prev.len() && prev[k] == fp[p];
                    assert(s[k].vid() != s[s.len() - 1].vid());
                }
            }
            assert forall|i: int| 0 <= i < f.len() implies s.contains(#[trigger] f[i]) by {
                if i < fp.len() {
                    assert(f[i] == fp[i]);
                } else {
                    assert(f[i] == s.last());
                    assert(s[s.len() - 1] == s.last());
                }
            }
        } else {
            assert(f == fp);
        }
    }
}

/// An in-memory keyed store: the injected replacement for the process-wide
/// registry, so that every read and write is an explicit, checked operation.
/// Entries keep their insertion order.
pub struct Store<T: HasId> where T::V: EntryView {
    items: Vec<T>,
}

impl<T: HasId> View for Store<T> where T::V: EntryView {
    type V = Seq<T::V>;

    closed spec fn view(&self) -> Seq<T::V> {
        views_of(self.items@)
    }
}

impl<T: HasId> Store<T> where T::V: EntryView {
    /// The store's invariant: ids are unique, so lookups are unambiguous.
    pub open spec fn wf(&self) -> bool {
        ids_unique(self@)
    }

    pub fn new() -> (r: Self)
        ensures
            r@ == Seq::<T::V>::empty(),
            r.wf(),
    {
        let r = Store { items: Vec::new() };
        proof {
            assert(r@ =~= Seq::<T::V>::empty());
        }
        r
    }

    pub fn len(&self) -> (r: usize)
        ensures
            r == self@.len(),
    {
        self.items.len()
    }

    /// Index of the entry filed under `id`, if any.
    fn index_of(&self, id: &String) -> (r: Option<usize>)
        ensures
            match r {
                Some(i) => 0 <= i < self@.len() && self@[i as int].vid() == id@,
                None => !has_entry(self@, id@),
            },
    {
        let n = self.items.len();
        let mut i: usize = 0;
        while i < n
            invariant
                0 <= i <= n,
                n == self@.len(),
                self@ == views_of(self.items@),
                forall|j: int| 0 <= j < i ==> self@[j].vid() != id@,
            decreases n - i,
        {
            let entry_id = self.items[i].id();
            if entry_id == *id {
                return Some(i);
            }
            i = i + 1;
        }
        None
    }

    /// Resolves an id to a copy of its entry.
    pub fn get(&self, id: &String) -> (r: Option<T>)
        ensures
            match r {
                Some(t) => self@.contains(t@) && t@.vid() == id@,
                None => !has_entry(self@, id@),
            },
    {
        match self.index_of(id) {
            Some(i) => {
                let t = self.items[i].duplicate();
                proof {
                    assert(self@[i as int] == self.items@[i as int]@);
                }
                Some(t)
            },
            None => None,
        }
    }

    /// Files `entry`, replacing whatever was filed under the same id.
    pub fn add(&mut self, entry: T)
        requires
            old(self).wf(),
        ensures
            final(self).wf(),
            added(old(self)@, final(self)@, entry@),
    {
        let ghost v = entry@;
        match self.index_of(&entry.id()) {
            Some(i) => {
                self.items.set(i, entry);
                proof {
                    let s = old(self)@;
                    let i = i as int;
                    assert(final(self)@ =~= s.update(i, v));
                    assert forall|p: int, q: int|
                        0 <= p < q < final(self)@.len() implies final(self)@[p].vid() != final(self)@[q].vid() by {
                        if p != i && q != i {
                            assert(final(self)@[p] == s[p] && final(self)@[q] == s[q]);
                        } else if p == i {
                            assert(final(self)@[q] == s[q] && s[i].vid() == v.vid());
                        } else {
                            assert(final(self)@[p] == s[p] && s[i].vid() == v.vid());
                        }
                    }
                    assert(final(self)@[i].vid() == v.vid());
                }
            },
            None => {
                self.items.push(entry);
                proof {
                    let s = old(self)@;
                    let n = s.len() as int;
                    assert(final(self)@ =~= s.push(v));
                    assert forall|p: int, q: int|
                        0 <= p < q < final(self)@.len() implies final(self)@[p].vid() != final(self)@[q].vid() by {
                        if q < n {
                            assert(final(self)@[p] == s[p] && final(self)@[q] == s[q]);
                        } else {
                            assert(final(self)@[p] == s[p]);
                            assert(final(self)@[q] == v);
                        }
                    }
                    assert(final(self)@[n].vid() == v.vid());
                }
            },
        }
    }

    /// Consumes the entry filed under `id`: removes and returns it.
    pub fn remove(&mut self, id: &String) -> (r: Option<T>)
        requires
            old(self).wf(),
        ensures
            final(self).wf(),
            !has_entry(final(self)@, id@),
            match r {
                Some(t) => {
                    &&& t@.vid() == id@
                    &&& exists|i: int|
                        0 <= i < old(self)@.len() && old(self)@[i] == t@
                            && final(self)@ == old(self)@.remove(i)
                },
                None => !has_entry(old(self)@, id@) && final(self)@ == old(self)@,
            },
    {
        match self.index_of(id) {
            Some(i) => {
                let t = self.items.remove(i);
                proof {
                    let s = old(self)@;
                    let i = i as int;
                    assert(t@ == s[i]);
                    assert(final(self)@ =~= s.remove(i));
                    assert(s.remove(i) =~= s.take(i) + s.skip(i + 1));
                    assert forall|p: int, q: int|
                        0 <= p < q < final(self)@.len() implies final(self)@[p].vid() != final(self)@[q].vid() by {
                        let sp = if p < i {
                            p
                        } else {
                            p + 1
                        };
                        let sq = if q < i {
                            q
                        } else {
                            q + 1
                        };
                        assert(final(self)@[p] == s[sp] && final(self)@[q] == s[sq]);
                    }
                    assert forall|p: int|
                        0 <= p < final(self)@.len() implies final(self)@[p].vid() != id@ by {
                        let sp = if p < i {
                            p
                        } else {
                            p + 1
                        };
                        assert(final(self)@[p] == s[sp]);
                        if sp != i {
                            assert(s[sp].vid() != s[i].vid());
                        }
                    }
                }
                Some(t)
            },
            None => None,
        }
    }

    /// Copies of all entries, in insertion order.
    pub fn all(&self) -> (r: Vec<T>)
        ensures
            views_of(r@) == self@,
    {
        let n = self.items.len();
        let mut out: Vec<T> = Vec::new();
        let mut i: usize = 0;
        while i < n
            invariant
                0 <= i <= n,
                n == self@.len(),
                self@ == views_of(self.items@),
                views_of(out@) == self@.take(i as int),
            decreases n - i,
        {
            let ghost prev = out@;
            let d = self.items[i].duplicate();
            let ghost dv = d@;
            out.push(d);
            proof {
                lemma_views_push(prev, out@.last());
                assert(out@ =~= prev.push(out@.last()));
                assert(views_of(out@) =~= self@.take(i as int + 1));
            }
            i = i + 1;
        }
        proof {
            assert(self@.take(n as int) =~= self@);
        }
        out
    }

    /// Copies of the entries that belong to `chat`, in insertion order.
    pub fn all_chat(&self, chat: i64) -> (r: Vec<T>)
        ensures
            views_of(r@) == self@.filter(by_chat::<T::V>(chat as int)),
    {
        let n = self.items.len();
        let mut out: Vec<T> = Vec::new();
        let mut i: usize = 0;
        proof {
            reveal(Seq::filter);
            assert(views_of(out@) =~= self@.take(0).filter(by_chat::<T::V>(chat as int)));
        }
        while i < n
            invariant
                0 <= i <= n,
                n == self@.len(),
                self@ == views_of(self.items@),
                views_of(out@) == self@.take(i as int).filter(by_chat::<T::V>(chat as int)),
            decreases n - i,
        {
            let item_chat = self.items[i].chat_id();
            proof {
                reveal(Seq::filter);
                assert(self@.take(i as int + 1).drop_last() =~= self@.take(i as int));
                assert(self@.take(i as int + 1).last() == self@[i as int]);
            }
            if item_chat == chat {
                out.push(self.items[i].duplicate());
                proof {
                    assert(views_of(out@) =~= self@.take(i as int).filter(
                        by_chat::<T::V>(chat as int),
                    ).push(self@[i as int]));
                }
            } else {
                proof {
                    assert(views_of(out@) =~= self@.take(i as int).filter(
                        by_chat::<T::V>(chat as int),
                    ));
                }
            }
            i = i + 1;
        }
        proof {
            assert(self@.take(n as int) =~= self@);
        }
        out
    }
}

/// Law (single-use resolution): a freshly filed entry resolves to exactly
/// itself; once consumed, the same id resolves to nothing.
pub proof fn lemma_single_use_resolution<V: EntryView>(
    s0: Seq<V>,
    s1: Seq<V>,
    s2: Seq<V>,
    v: V,
    i: int,
)
    requires
        ids_unique(s0),
        added(s0, s1, v),
        ids_unique(s1),
        0 <= i < s1.len(),
        s1[i].vid() == v.vid(),
        s2 == s1.remove(i),
    ensures
        has_entry(s1, v.vid()),
        entry_of(s1, v.vid()) == v,
        !has_entry(s2, v.vid()),
{
    if has_entry(s0, v.vid()) {
        let k = choose|k: int| 0 <= k < s0.len() && s0[k].vid() == v.vid() && s1 == s0.update(k, v);
        lemma_entry_of(s1, v.vid(), k);
    } else {
        lemma_entry_of(s1, v.vid(), s0.len() as int);
    }
    assert(s2 =~= s1.take(i) + s1.skip(i + 1));
    assert forall|p: int| 0 <= p < s2.len() implies (#[trigger] s2[p]).vid() != v.vid() by {
        let sp = if p < i {
            p
        } else {
            p + 1
        };
        assert(s2[p] == s1[sp]);
        if sp < i {
            assert(s1[sp].vid() != s1[i].vid());
        } else {
            assert(s1[i].vid() != s1[sp].vid());
        }
    }
}

} // verus!
