use vstd::prelude::*;
use vstd::string::*;

verus! {

/// Whether `s` holds `m` as a contiguous run of characters.
pub open spec fn contains_seq(s: Seq<char>, m: Seq<char>) -> bool {
    exists|i: int| 0 <= i && i + m.len() <= s.len() && #[trigger] s.subrange(i, i + m.len()) == m
}

/// Whether `s` holds the character `c`.
pub open spec fn contains_char(s: Seq<char>, c: char) -> bool {
    exists|i: int| 0 <= i < s.len() && s[i] == c
}

/// The position of the first `c` in `s` (meaningful where `s` holds one).
pub open spec fn first_index(s: Seq<char>, c: char) -> int
    decreases s.len(),
{
    if s.len() == 0 {
        0
    } else if s[0] == c {
        0
    } else {
        1 + first_index(s.drop_first(), c)
    }
}

/// Text equality of two strings.
pub fn same_text(a: &str, b: &str) -> (r: bool)
    ensures
        r == (a@ == b@),
{
    let n = a.unicode_len();
    if n != b.unicode_len() {
        return false;
    }
    let mut i: usize = 0;
    while i < n
        invariant
            n == a@.len(),
            n == b@.len(),
            i <= n,
            a@.subrange(0, i as int) == b@.subrange(0, i as int),
        decreases n - i,
    {
        if a.get_char(i) != b.get_char(i) {
            return false;
        }
        assert(a@.subrange(0, i + 1) == a@.subrange(0, i as int).push(a@[i as int]));
        assert(b@.subrange(0, i + 1) == b@.subrange(0, i as int).push(b@[i as int]));
        i = i + 1;
    }
    assert(a@ == a@.subrange(0, n as int));
    assert(b@ == b@.subrange(0, n as int));
    true
}


/// Where `s` first holds `c` at `k`, `first_index` is `k`.
pub proof fn lemma_first_index(s: Seq<char>, c: char, k: int)
    requires
        0 <= k < s.len(),
        s[k] == c,
        forall|j: int| 0 <= j < k ==> s[j] != c,
    ensures
        first_index(s, c) == k,
    decreases k,
{
    if k > 0 {
        assert forall|j: int| 0 <= j < k - 1 implies s.drop_first()[j] != c by {
            assert(s.drop_first()[j] == s[j + 1]);
        }
        lemma_first_index(s.drop_first(), c, k - 1);
    }
}

/// Where `s` holds `c`, `first_index` is a position of `c` in `s`.
pub proof fn lemma_first_index_in(s: Seq<char>, c: char)
    requires
        contains_char(s, c),
    ensures
        0 <= first_index(s, c) < s.len(),
        s[first_index(s, c)] == c,
    decreases s.len(),
{
    if s[0] != c {
        let i = choose|i: int| 0 <= i < s.len() && s[i] == c;
        assert(s.drop_first()[i - 1] == c);
        lemma_first_index_in(s.drop_first(), c);
    }
}

/// The position of the first `c` in `s`, if there is one.
pub fn find_char(s: &str, c: char) -> (r: Option<usize>)
    ensures
        r is None <==> !contains_char(s@, c),
        r matches Some(k) ==> k < s@.len() && k == first_index(s@, c),
{
    let n = s.unicode_len();
    let mut i: usize = 0;
    while i < n
        invariant
            n == s@.len(),
            i <= n,
            forall|j: int| 0 <= j < i ==> s@[j] != c,
        decreases n - i,
    {
        if s.get_char(i) == c {
            proof {
                lemma_first_index(s@, c, i as int);
            }
            return Some(i);
        }
        i = i + 1;
    }
    None
}

/// Whether `m` stands in `s` at position `i`.
fn holds_at(s: &str, m: &str, i: usize) -> (r: bool)
    requires
        i + m@.len() <= s@.len(),
    ensures
        r == (s@.subrange(i as int, i + m@.len()) == m@),
{
    let k = m.unicode_len();
    let n = s.unicode_len();
    let mut j: usize = 0;
    while j < k
        invariant
            k == m@.len(),
            n == s@.len(),
            i + k <= s@.len(),
            j <= k,
            forall|t: int| 0 <= t < j ==> s@[i + t] == m@[t],
        decreases k - j,
    {
        if s.get_char(i + j) != m.get_char(j) {
            assert(s@.subrange(i as int, i + m@.len())[j as int] != m@[j as int]);
            return false;
        }
        j = j + 1;
    }
    assert(s@.subrange(i as int, i + m@.len()) == m@);
    true
}

/// Whether `s` holds `m` as a contiguous run of characters.
pub fn contains_text(s: &str, m: &str) -> (r: bool)
    ensures
        r == contains_seq(s@, m@),
{
    let n = s.unicode_len();
    let k = m.unicode_len();
    if k > n {
        return false;
    }
    if k == 0 {
        assert(s@.subrange(0int, 0int + m@.len()) =~= m@);
        return true;
    }
    let mut i: usize = 0;
    while i <= n - k
        invariant
            n == s@.len(),
            k == m@.len(),
            0 < k <= n,
            i <= n - k + 1,
            forall|j: int| 0 <= j < i ==> #[trigger] s@.subrange(j, j + k) != m@,
        decreases n - k + 1 - i,
    {
        if holds_at(s, m, i) {
            return true;
        }
        i = i + 1;
    }
    false
}

} // verus!
