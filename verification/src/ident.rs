use vstd::prelude::*;
use vstd::string::*;

verus! {

/// A well-formed correlation id: non-empty and free of the payload separator,
/// so that a callback payload can be split back unambiguously.
pub open spec fn id_wf(s: Seq<char>) -> bool {
    &&& s.len() > 0
    &&& forall|i: int| 0 <= i < s.len() ==> s[i] != '.'
}

/// Relies on nanoid::format with nanoid::alphabet::SAFE and nanoid::rngs::default:
/// the result is 21 characters, each drawn from `A-Za-z0-9_-`, so it never
/// contains the payload separator `.`.
#[verifier::external_body]
pub fn fresh_id() -> (r: String)
    ensures
        r@.len() == 21,
        id_wf(r@),
{
    nanoid::format(nanoid::rngs::default, &nanoid::alphabet::SAFE, 21)
}

/// Relies on nanoid::rngs::default: `n` bytes from the operating system's random
/// source. Nothing is promised of their values.
#[verifier::external_body]
pub fn random_bytes(n: usize) -> (r: Vec<u8>)
    ensures
        r@.len() == n,
{
    nanoid::rngs::default(n)
}

/// Whether `s` contains the separator character.
pub open spec fn has_dot(s: Seq<char>) -> bool {
    exists|i: int| 0 <= i < s.len() && s[i] == '.'
}

/// Splits `s` at its single separator: the parts before and after the one `.`,
/// or nothing when `s` has no separator or more than one.
pub open spec fn split_at_dot(s: Seq<char>) -> Option<(Seq<char>, Seq<char>)>
    decreases s.len(),
{
    if s.len() == 0 {
        None
    } else if s[0] == '.' {
        if has_dot(s.drop_first()) {
            None
        } else {
            Some((Seq::<char>::empty(), s.drop_first()))
        }
    } else {
        match split_at_dot(s.drop_first()) {
            Some(parts) => Some((seq![s[0]] + parts.0, parts.1)),
            None => None,
        }
    }
}

/// The callback payload for a button: `keyboard_id.button_id`, or `.button_id`
/// for a keyboard-less button.
pub open spec fn payload_of(keyboard: Option<Seq<char>>, button: Seq<char>) -> Seq<char> {
    (match keyboard {
        Some(k) => k,
        None => Seq::<char>::empty(),
    }) + "."@ + button
}

/// The typed form of a callback payload: which keyboard and which button a
/// click refers to.
pub struct CorrelationId {
    pub keyboard_id: Option<String>,
    pub button_id: String,
}

impl CorrelationId {
    pub open spec fn wf(&self) -> bool {
        &&& (self.keyboard_id matches Some(k) ==> id_wf(k@))
        &&& id_wf(self.button_id@)
    }

    pub open spec fn keyboard_view(&self) -> Option<Seq<char>> {
        match self.keyboard_id {
            Some(k) => Some(k@),
            None => None,
        }
    }

    /// The payload string sent out with a rendered button.
    pub fn encode(&self) -> (r: String)
        ensures
            r@ == payload_of(self.keyboard_view(), self.button_id@),
    {
        let mut s = match &self.keyboard_id {
            Some(k) => k.clone(),
            None => String::new(),
        };
        s.append(".");
        s.append(self.button_id.as_str());
        s
    }
}

proof fn lemma_split_prefix(s: Seq<char>, i: int)
    requires
        0 <= i < s.len(),
        s[i] == '.',
        forall|j: int| 0 <= j < s.len() && j != i ==> s[j] != '.',
    ensures
        split_at_dot(s) == Some((s.take(i), s.skip(i + 1))),
    decreases i,
{
    if i == 0 {
        assert(!has_dot(s.drop_first())) by {
            assert forall|j: int| 0 <= j < s.drop_first().len() implies s.drop_first()[j] != '.' by {
                assert(s.drop_first()[j] == s[j + 1]);
            }
        }
        assert(s.take(0) =~= Seq::<char>::empty());
        assert(s.skip(1) =~= s.drop_first());
    } else {
        let t = s.drop_first();
        assert forall|j: int| 0 <= j < t.len() && j != i - 1 implies t[j] != '.' by {
            assert(t[j] == s[j + 1]);
        }
        assert(t[i - 1] == s[i]);
        lemma_split_prefix(t, i - 1);
        assert(seq![s[0]] + t.take(i - 1) =~= s.take(i));
        assert(t.skip(i) =~= s.skip(i + 1));
    }
}

proof fn lemma_split_none(s: Seq<char>)
    requires
        !has_dot(s),
    ensures
        split_at_dot(s) is None,
    decreases s.len(),
{
    if s.len() > 0 {
        assert(s[0] != '.');
        assert forall|j: int| 0 <= j < s.drop_first().len() implies s.drop_first()[j] != '.' by {
            assert(s.drop_first()[j] == s[j + 1]);
        }
        lemma_split_none(s.drop_first());
    }
}

/// Law: a payload built from well-formed ids parses back to exactly those ids.
/// The separator cannot occur inside an id, so the split is unambiguous.
pub proof fn lemma_payload_round_trip(keyboard: Option<Seq<char>>, button: Seq<char>)
    requires
        keyboard matches Some(k) ==> id_wf(k),
        id_wf(button),
    ensures
        split_at_dot(payload_of(keyboard, button)) == Some(
            (
                match keyboard {
                    Some(k) => k,
                    None => Seq::<char>::empty(),
                },
                button,
            ),
        ),
{
    reveal_strlit(".");
    let k = match keyboard {
        Some(k) => k,
        None => Seq::<char>::empty(),
    };
    let s = payload_of(keyboard, button);
    let i = k.len() as int;
    assert(s[i] == '.');
    assert forall|j: int| 0 <= j < s.len() && j != i implies s[j] != '.' by {
        if j < i {
            assert(s[j] == k[j]);
        } else {
            assert(s[j] == button[j - i - 1]);
        }
    }
    lemma_split_prefix(s, i);
    assert(s.take(i) =~= k);
    assert(s.skip(i + 1) =~= button);
}

/// Parses a callback payload back into its keyboard and button ids.
/// Returns nothing when the payload does not consist of exactly one separator
/// with a non-empty button part after it.
pub fn parse_payload(payload: &str) -> (r: Option<CorrelationId>)
    ensures
        match r {
            Some(c) => {
                &&& split_at_dot(payload@) == Some(
                    (
                        match c.keyboard_id {
                            Some(k) => k@,
                            None => Seq::<char>::empty(),
                        },
                        c.button_id@,
                    ),
                )
                &&& (c.keyboard_id matches Some(k) ==> k@.len() > 0)
                &&& c.button_id@.len() > 0
            },
            None => (match split_at_dot(payload@) {
                Some(parts) => parts.1.len() == 0,
                None => true,
            }),
        },
{
    let n = payload.unicode_len();
    let mut i: usize = 0;
    let mut dot: Option<usize> = None;
    while i < n
        invariant
            0 <= i <= n,
            n == payload@.len(),
            match dot {
                Some(d) => {
                    &&& 0 <= d < i
                    &&& payload@[d as int] == '.'
                    &&& forall|j: int| 0 <= j < i && j != d ==> payload@[j] != '.'
                },
                None => forall|j: int| 0 <= j < i ==> payload@[j] != '.',
            },
        decreases n - i,
    {
        let c = payload.get_char(i);
        if c == '.' {
            match dot {
                Some(_) => {
                    // a second separator: the payload is malformed
                    proof {
                        lemma_split_two_dots(payload@);
                    }
                    return None;
                },
                None => {
                    dot = Some(i);
                },
            }
        }
        i = i + 1;
    }
    match dot {
        Some(d) => {
            proof {
                lemma_split_prefix(payload@, d as int);
            }
            if d + 1 == n {
                return None;
            }
            let button = payload.substring_char(d + 1, n).to_owned();
            let keyboard: Option<String> = if d == 0 {
                None
            } else {
                Some(payload.substring_char(0, d).to_owned())
            };
            proof {
                assert(payload@.subrange(d as int + 1, n as int) =~= payload@.skip(d as int + 1));
                assert(payload@.subrange(0, d as int) =~= payload@.take(d as int));
            }
            Some(CorrelationId { keyboard_id: keyboard, button_id: button })
        },
        None => {
            proof {
                lemma_split_none(payload@);
            }
            None
        },
    }
}

proof fn lemma_split_two_dots(s: Seq<char>)
    requires
        exists|i: int, j: int| 0 <= i < j < s.len() && s[i] == '.' && s[j] == '.',
    ensures
        split_at_dot(s) is None,
    decreases s.len(),
{
    let (i, j) = choose|i: int, j: int| 0 <= i < j < s.len() && s[i] == '.' && s[j] == '.';
    if s[0] == '.' {
        assert(has_dot(s.drop_first())) by {
            if i == 0 {
                assert(s.drop_first()[j - 1] == s[j]);
            } else {
                assert(s.drop_first()[i - 1] == s[i]);
            }
        }
    } else {
        assert(0 < i);
        assert(s.drop_first()[i - 1] == s[i]);
        assert(s.drop_first()[j - 1] == s[j]);
        lemma_split_two_dots(s.drop_first());
    }
}

} // verus!
