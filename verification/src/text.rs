use vstd::prelude::*;
use vstd::string::*;

verus! {

/// What str::to_uppercase returns: a function of the characters alone.
pub uninterp spec fn upper_of(s: Seq<char>) -> Seq<char>;

/// Relies on str::to_uppercase: the uppercase mapping of `s` depends on the
/// characters alone, and an empty input gives an empty output.
#[verifier::external_body]
pub fn to_upper(s: &str) -> (r: String)
    ensures
        r@ == upper_of(s@),
        s@.len() == 0 ==> r@.len() == 0,
{
    s.to_uppercase()
}

/// An exact copy of a vector of strings.
pub fn clone_string_vec(v: &Vec<String>) -> (r: Vec<String>)
    ensures
        r@ == v@,
{
    let n = v.len();
    let mut out: Vec<String> = Vec::new();
    let mut i: usize = 0;
    while i < n
        invariant
            0 <= i <= n,
            n == v@.len(),
            out@ == v@.take(i as int),
        decreases n - i,
    {
        out.push(v[i].clone());
        proof {
            assert(out@ =~= v@.take(i as int + 1));
        }
        i = i + 1;
    }
    proof {
        assert(v@.take(n as int) =~= v@);
    }
    out
}

/// An exact copy of an optional string.
pub fn clone_opt_string(v: &Option<String>) -> (r: Option<String>)
    ensures
        r == *v,
{
    match v {
        Some(s) => Some(s.clone()),
        None => None,
    }
}

/// A run of `n` star symbols.
pub open spec fn star_run(n: int) -> Seq<char>
    decreases n,
{
    if n <= 0 {
        Seq::<char>::empty()
    } else {
        star_run(n - 1) + "\u{2b50}"@
    }
}

/// A run of `count` star symbols, rendered.
pub fn stars(count: u8) -> (r: String)
    requires
        count <= 10,
    ensures
        r@ == star_run(count as int),
{
    let mut out = String::new();
    let mut i: u8 = 0;
    proof {
        assert(out@ =~= star_run(0));
    }
    while i < count
        invariant
            0 <= i <= count,
            out@ == star_run(i as int),
        decreases count - i,
    {
        out.append("\u{2b50}");
        i = i + 1;
    }
    out
}

/// The five fixed options of a rating poll: one to five stars.
pub fn star_answers() -> (r: Vec<String>)
    ensures
        r@.len() == 5,
        forall|i: int| 0 <= i < 5 ==> (#[trigger] r@[i])@ == star_run(i + 1),
{
    let mut out: Vec<String> = Vec::new();
    let mut i: u8 = 1;
    while i <= 5
        invariant
            1 <= i <= 6,
            out@.len() == i - 1,
            forall|j: int| 0 <= j < i - 1 ==> (#[trigger] out@[j])@ == star_run(j + 1),
        decreases 6 - i,
    {
        out.push(stars(i));
        i = i + 1;
    }
    out
}

/// The digit that names a star level.
pub open spec fn digit_of(w: int) -> Seq<char> {
    if w == 1 {
        "1"@
    } else if w == 2 {
        "2"@
    } else if w == 3 {
        "3"@
    } else if w == 4 {
        "4"@
    } else {
        "5"@
    }
}

/// The digit that names a star level, rendered.
pub fn digit_string(w: u8) -> (r: String)
    requires
        1 <= w <= 5,
    ensures
        r@ == digit_of(w as int),
{
    let s: &str = if w == 1 {
        "1"
    } else if w == 2 {
        "2"
    } else if w == 3 {
        "3"
    } else if w == 4 {
        "4"
    } else {
        "5"
    };
    s.to_owned()
}

/// The views of a sequence of strings.
pub open spec fn str_views(s: Seq<String>) -> Seq<Seq<char>> {
    s.map_values(|x: String| x@)
}

pub proof fn lemma_str_views_push(s: Seq<String>, x: String)
    ensures
        str_views(s.push(x)) == str_views(s).push(x@),
{
    assert(str_views(s.push(x)) =~= str_views(s).push(x@));
}

/// A vector of strings models the same sequence under either view.
pub proof fn lemma_deep_is_str_views(v: Vec<String>)
    ensures
        v.deep_view() == str_views(v@),
{
    assert(v.deep_view() =~= str_views(v@));
}

} // verus!
