use vstd::prelude::*;

verus! {

/// `q` occurs as a contiguous run of characters somewhere in `t`.
pub open spec fn contains_seq(t: Seq<char>, q: Seq<char>) -> bool {
    exists|i: int| 0 <= i && i + q.len() <= t.len() && #[trigger] t.subrange(i, i + q.len()) == q
}

/// Does `q` occur at position `i` of `t`? (`i + q.len() <= t.len()`)
fn occurs_at(t: &Vec<char>, q: &Vec<char>, i: usize) -> (r: bool)
    requires
        i + q.len() <= t.len(),
    ensures
        r == (t@.subrange(i as int, i + q.len()) == q@),
{
    let mut k: usize = 0;
    while k < q.len()
        invariant
            i + q.len() <= t.len(),
            k <= q.len(),
            forall|j: int| 0 <= j < k ==> t@[i + j] == q@[j],
        decreases q.len() - k,
    {
        if t[i + k] != q[k] {
            assert(t@.subrange(i as int, i + q.len())[k as int] != q@[k as int]);
            return false;
        }
        k = k + 1;
    }
    assert(t@.subrange(i as int, i + q.len()) =~= q@);
    true
}

/// Characters of a string slice, in order.
pub fn chars_of(s: &str) -> (r: Vec<char>)
    ensures
        r@ == s@,
{
    let mut v: Vec<char> = Vec::new();
    for c in it: s.chars()
        invariant
            v@ == it.seq().take(it.index() as int),
    {
        v.push(c);
        assert(v@ =~= it.seq().take(it.index() + 1));
    }
    assert(v@ =~= s@);
    v
}

/// Whether `needle` occurs in `haystack` as a contiguous substring.
pub fn contains_text(haystack: &str, needle: &str) -> (r: bool)
    ensures
        r == contains_seq(haystack@, needle@),
{
    let t = chars_of(haystack);
    let q = chars_of(needle);
    if q.len() > t.len() {
        return false;
    }
    let last: usize = t.len() - q.len();
    let mut i: usize = 0;
    while i <= last
        invariant
            t@ == haystack@,
            q@ == needle@,
            last == t.len() - q.len(),
            q.len() <= t.len(),
            i <= last + 1,
            forall|j: int| 0 <= j < i ==> #[trigger] t@.subrange(j, j + q.len()) != q@,
        ensures
            forall|j: int| 0 <= j <= last ==> #[trigger] t@.subrange(j, j + q.len()) != q@,
        decreases last + 1 - i,
    {
        if occurs_at(&t, &q, i) {
            return true;
        }
        if i == last {
            break;
        }
        i = i + 1;
    }
    false
}


/// What `str::to_lowercase` yields for a text: its full Unicode lower-case form.
pub uninterp spec fn lower_of(s: Seq<char>) -> Seq<char>;

/// Relies on `str::to_lowercase`: the locale-independent lower-case form,
/// which depends on the characters of `s` alone.
#[verifier::external_body]
pub(crate) fn lowercase(s: &str) -> (r: String)
    ensures
        r@ == lower_of(s@),
{
    s.to_lowercase()
}

} // verus!
