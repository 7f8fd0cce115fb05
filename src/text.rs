//! Character-level helpers: ASCII case folding, query splitting and
//! substring search over folded code points.
use vstd::prelude::*;
use vstd::string::*;

verus! {

/// A character folded to lower case over ASCII, as its code point.
pub open spec fn fold(c: char) -> u32 {
    if 65 <= (c as u32) && (c as u32) <= 90 {
        ((c as u32) + 32) as u32
    } else {
        c as u32
    }
}

/// A text folded character by character.
pub open spec fn folded(s: Seq<char>) -> Seq<u32> {
    s.map_values(|c: char| fold(c))
}

/// A whitespace character: one with the Unicode `White_Space` property,
/// the set that `char::is_whitespace` and `str::trim` go by.
pub open spec fn is_space(c: char) -> bool {
    let v = c as u32;
    ||| 9 <= v && v <= 13
    ||| v == 32
    ||| v == 0x85
    ||| v == 0xA0
    ||| v == 0x1680
    ||| 0x2000 <= v && v <= 0x200A
    ||| v == 0x2028
    ||| v == 0x2029
    ||| v == 0x202F
    ||| v == 0x205F
    ||| v == 0x3000
}

/// Index of the first separator at or after `i`, or the length.
pub open spec fn space_from(q: Seq<char>, i: int) -> int
    decreases q.len() - i,
{
    if i >= q.len() {
        q.len() as int
    } else if is_space(q[i]) {
        i
    } else {
        space_from(q, i + 1)
    }
}

/// Index of the first non-separator at or after `i`, or the length.
pub open spec fn word_from(q: Seq<char>, i: int) -> int
    decreases q.len() - i,
{
    if i >= q.len() {
        q.len() as int
    } else if !is_space(q[i]) {
        i
    } else {
        word_from(q, i + 1)
    }
}

/// The part of a query before its first separator.
pub open spec fn shorthand_of(q: Seq<char>) -> Seq<char> {
    q.subrange(0, space_from(q, 0))
}

/// The part of a query after its first run of separators.
pub open spec fn fragment_of(q: Seq<char>) -> Seq<char> {
    q.subrange(word_from(q, space_from(q, 0)), q.len() as int)
}

/// One past the last non-whitespace character before `j`, or 0.
pub open spec fn word_end(q: Seq<char>, j: int) -> int
    decreases j,
{
    if j <= 0 {
        0
    } else if !is_space(q[j - 1]) {
        j
    } else {
        word_end(q, j - 1)
    }
}

/// `q` without the whitespace at both of its ends.
pub open spec fn trim(q: Seq<char>) -> Seq<char> {
    let a = word_from(q, 0);
    let b = word_end(q, q.len() as int);
    if a < b {
        q.subrange(a, b)
    } else {
        Seq::empty()
    }
}

/// `n` occurs in `h` at some position.
pub open spec fn contains(h: Seq<u32>, n: Seq<u32>) -> bool {
    exists|i: int| 0 <= i && i + n.len() <= h.len() && #[trigger] h.subrange(i, i + n.len()) == n
}

pub fn fold_char(c: char) -> (r: u32)
    ensures
        r == fold(c),
{
    let v = c as u32;
    if 65 <= v && v <= 90 {
        v + 32
    } else {
        v
    }
}

pub fn is_space_char(c: char) -> (r: bool)
    ensures
        r == is_space(c),
{
    let v = c as u32;
    (9 <= v && v <= 13) || v == 32 || v == 0x85 || v == 0xA0 || v == 0x1680 || (0x2000 <= v && v
        <= 0x200A) || v == 0x2028 || v == 0x2029 || v == 0x202F || v == 0x205F || v == 0x3000
}

/// The folded code points of `s`.
pub fn folded_codes(s: &str) -> (r: Vec<u32>)
    ensures
        r@ == folded(s@),
{
    let n = s.unicode_len();
    let mut out: Vec<u32> = Vec::new();
    let mut i: usize = 0;
    while i < n
        invariant
            n == s@.len(),
            i <= n,
            out@.len() == i,
            forall|j: int| 0 <= j < i ==> out@[j] == fold(s@[j]),
        decreases n - i,
    {
        let c = s.get_char(i);
        out.push(fold_char(c));
        i += 1;
    }
    assert(out@ =~= folded(s@));
    out
}

proof fn lemma_space_from_bounds(q: Seq<char>, i: int)
    requires
        0 <= i <= q.len(),
    ensures
        i <= space_from(q, i) <= q.len(),
        forall|k: int| i <= k < space_from(q, i) ==> !is_space(#[trigger] q[k]),
    decreases q.len() - i,
{
    if i < q.len() && !is_space(q[i]) {
        lemma_space_from_bounds(q, i + 1);
    }
}

proof fn lemma_word_from_bounds(q: Seq<char>, i: int)
    requires
        0 <= i <= q.len(),
    ensures
        i <= word_from(q, i) <= q.len(),
    decreases q.len() - i,
{
    if i < q.len() && is_space(q[i]) {
        lemma_word_from_bounds(q, i + 1);
    }
}

/// Splits a query at its first run of separators into its shorthand and
/// its fragment.
pub fn split_query(q: &str) -> (r: (Vec<u32>, Vec<u32>))
    ensures
        r.0@ == folded(shorthand_of(q@)),
        r.1@ == folded(fragment_of(q@)),
{
    let n = q.unicode_len();
    let mut i: usize = 0;
    while i < n && !is_space_char(q.get_char(i))
        invariant
            n == q@.len(),
            i <= n,
            space_from(q@, 0) == space_from(q@, i as int),
        decreases n - i,
    {
        i += 1;
    }
    let mut j: usize = i;
    while j < n && is_space_char(q.get_char(j))
        invariant
            n == q@.len(),
            i <= j <= n,
            space_from(q@, 0) == i,
            word_from(q@, i as int) == word_from(q@, j as int),
        decreases n - j,
    {
        j += 1;
    }
    let head = folded_codes(q.substring_char(0, i));
    let tail = folded_codes(q.substring_char(j, n));
    (head, tail)
}

/// Whether `n` occurs in `h` starting at `i`.
fn occurs_at(h: &Vec<u32>, n: &Vec<u32>, i: usize) -> (r: bool)
    requires
        i + n@.len() <= h@.len(),
    ensures
        r == (h@.subrange(i as int, i + n@.len()) == n@),
{
    let hl = h.len();
    let mut k: usize = 0;
    while k < n.len()
        invariant
            hl == h@.len(),
            i + n@.len() <= h@.len(),
            k <= n@.len(),
            forall|m: int| 0 <= m < k ==> h@[i + m] == n@[m],
        decreases n@.len() - k,
    {
        assert(i + k < h@.len());
        if h[i + k] != n[k] {
            assert(h@.subrange(i as int, i + n@.len())[k as int] != n@[k as int]);
            return false;
        }
        k += 1;
    }
    assert(h@.subrange(i as int, i + n@.len()) =~= n@);
    true
}

/// Whether `n` occurs anywhere in `h`.
pub fn contains_codes(h: &Vec<u32>, n: &Vec<u32>) -> (r: bool)
    ensures
        r == contains(h@, n@),
{
    if n.len() > h.len() {
        return false;
    }
    let last = h.len() - n.len();
    let mut i: usize = 0;
    loop
        invariant
            last == h@.len() - n@.len(),
            n@.len() <= h@.len(),
            i <= last,
            forall|k: int| 0 <= k < i ==> #[trigger] h@.subrange(k, k + n@.len()) != n@,
        decreases last - i,
    {
        if occurs_at(h, n, i) {
            return true;
        }
        if i == last {
            return false;
        }
        i += 1;
    }
}

/// Whether two sequences of code points are equal.
pub fn codes_equal(a: &Vec<u32>, b: &Vec<u32>) -> (r: bool)
    ensures
        r == (a@ == b@),
{
    if a.len() != b.len() {
        return false;
    }
    let mut k: usize = 0;
    while k < a.len()
        invariant
            a@.len() == b@.len(),
            k <= a@.len(),
            forall|m: int| 0 <= m < k ==> a@[m] == b@[m],
        decreases a@.len() - k,
    {
        if a[k] != b[k] {
            return false;
        }
        k += 1;
    }
    assert(a@ =~= b@);
    true
}

proof fn lemma_word_end_bounds(q: Seq<char>, j: int)
    requires
        0 <= j <= q.len(),
    ensures
        0 <= word_end(q, j) <= j,
    decreases j,
{
    if j > 0 && is_space(q[j - 1]) {
        lemma_word_end_bounds(q, j - 1);
    }
}

/// `s` without the whitespace at both of its ends.
pub fn trim_text(s: &str) -> (r: String)
    ensures
        r@ == trim(s@),
{
    let n = s.unicode_len();
    let mut a: usize = 0;
    while a < n && is_space_char(s.get_char(a))
        invariant
            n == s@.len(),
            a <= n,
            word_from(s@, 0) == word_from(s@, a as int),
        decreases n - a,
    {
        a += 1;
    }
    let mut b: usize = n;
    while b > 0 && is_space_char(s.get_char(b - 1))
        invariant
            n == s@.len(),
            b <= n,
            word_end(s@, n as int) == word_end(s@, b as int),
        decreases b,
    {
        b -= 1;
    }
    proof {
        lemma_word_end_bounds(s@, n as int);
    }
    if a < b {
        String::from_str(s.substring_char(a, b))
    } else {
        String::new()
    }
}

} // verus!
