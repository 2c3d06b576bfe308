//! Character-sequence model of device paths: separators, components and
//! decimal digit runs, with verified executable counterparts.

use vstd::prelude::*;
use vstd::string::StrSliceExecFns;
use vstd::string::StringExecFns;

verus! {

/// The characters after the first occurrence of `c`, or empty when `c` does
/// not occur.
pub open spec fn after_first(s: Seq<char>, c: char) -> Seq<char>
    decreases s.len(),
{
    if s.len() == 0 {
        s
    } else if s[0] == c {
        s.drop_first()
    } else {
        after_first(s.drop_first(), c)
    }
}

/// The characters after the last occurrence of `c`, or all of `s` when `c`
/// does not occur.
pub open spec fn after_last(s: Seq<char>, c: char) -> Seq<char>
    decreases s.len(),
{
    if s.len() == 0 {
        s
    } else if s.drop_first().contains(c) {
        after_last(s.drop_first(), c)
    } else if s[0] == c {
        s.drop_first()
    } else {
        s
    }
}

/// The characters before the last occurrence of `c`, or empty when `c` does
/// not occur.
pub open spec fn before_last(s: Seq<char>, c: char) -> Seq<char>
    decreases s.len(),
{
    if s.len() == 0 {
        s
    } else if s.drop_first().contains(c) {
        seq![s[0]] + before_last(s.drop_first(), c)
    } else {
        Seq::<char>::empty()
    }
}

/// The components of `s` separated by `c`, in order.  Splitting the empty
/// sequence gives one empty component, as `str::split` does.
pub open spec fn split_on(s: Seq<char>, c: char) -> Seq<Seq<char>>
    decreases s.len(),
{
    if s.len() == 0 {
        seq![Seq::<char>::empty()]
    } else if s[0] == c {
        seq![Seq::<char>::empty()] + split_on(s.drop_first(), c)
    } else {
        let rest = split_on(s.drop_first(), c);
        seq![seq![s[0]] + rest[0]] + rest.drop_first()
    }
}

/// `p` is an initial segment of `s`.
pub open spec fn prefix_of(s: Seq<char>, p: Seq<char>) -> bool {
    p.len() <= s.len() && s.subrange(0, p.len() as int) == p
}

/// A decimal digit.
pub open spec fn is_digit_char(c: char) -> bool {
    48 <= c as int <= 57
}

/// The number written by a sequence of decimal digits, most significant first.
pub open spec fn dec_value(s: Seq<char>) -> int
    decreases s.len(),
{
    if s.len() == 0 {
        0
    } else {
        dec_value(s.drop_last()) * 10 + (s.last() as int - 48)
    }
}

/// The length of the run of decimal digits that starts `s`.
pub open spec fn digits_prefix_len(s: Seq<char>) -> int
    decreases s.len(),
{
    if s.len() > 0 && is_digit_char(s[0]) {
        1 + digits_prefix_len(s.drop_first())
    } else {
        0
    }
}

/// A split always has at least one component.
pub proof fn lemma_split_nonempty(s: Seq<char>, c: char)
    ensures
        split_on(s, c).len() >= 1,
    decreases s.len(),
{
    if s.len() > 0 {
        lemma_split_nonempty(s.drop_first(), c);
    }
}

/// When `c` does not occur in `s`, the split is `s` alone.
pub proof fn lemma_split_absent(s: Seq<char>, c: char)
    requires
        !s.contains(c),
    ensures
        split_on(s, c) =~~= seq![s],
    decreases s.len(),
{
    if s.len() > 0 {
        assert(s[0] != c);
        assert(forall|j: int|
            0 <= j < s.drop_first().len() ==> s.drop_first()[j] == s[j + 1]);
        assert(!s.drop_first().contains(c));
        lemma_split_absent(s.drop_first(), c);
        assert(seq![s[0]] + s.drop_first() =~= s);
    }
}

/// When the first occurrence of `c` in `s` is at `i`, the split is the part
/// before `i` followed by the split of the part after `i`.
pub proof fn lemma_split_at_first(s: Seq<char>, c: char, i: int)
    requires
        0 <= i < s.len(),
        s[i] == c,
        forall|j: int| 0 <= j < i ==> s[j] != c,
    ensures
        split_on(s, c) =~~= seq![s.subrange(0, i)] + split_on(
            s.subrange(i + 1, s.len() as int),
            c,
        ),
    decreases s.len(),
{
    if i == 0 {
        assert(s.subrange(0, 0) =~= Seq::<char>::empty());
        assert(s.subrange(1, s.len() as int) =~= s.drop_first());
    } else {
        let t = s.drop_first();
        assert(t[i - 1] == c);
        assert(forall|j: int| 0 <= j < i - 1 ==> t[j] == s[j + 1] && s[j + 1] != c);
        lemma_split_at_first(t, c, i - 1);
        lemma_split_nonempty(t.subrange(i, t.len() as int), c);
        assert(seq![s[0]] + t.subrange(0, i - 1) =~= s.subrange(0, i));
        assert(t.subrange(i, t.len() as int) =~= s.subrange(i + 1, s.len() as int));
    }
}

/// When `c` does not occur in `s`, nothing follows its last occurrence and
/// nothing precedes it.
pub proof fn lemma_sep_absent(s: Seq<char>, c: char)
    requires
        !s.contains(c),
    ensures
        after_last(s, c) == s,
        before_last(s, c) =~= Seq::<char>::empty(),
        after_first(s, c) =~= Seq::<char>::empty(),
    decreases s.len(),
{
    if s.len() > 0 {
        assert(s[0] != c);
        assert(forall|j: int|
            0 <= j < s.drop_first().len() ==> s.drop_first()[j] == s[j + 1]);
        assert(!s.drop_first().contains(c));
        lemma_sep_absent(s.drop_first(), c);
    }
}

/// When the first occurrence of `c` in `s` is at `i`, `after_first` is the
/// part after `i`.
pub proof fn lemma_after_first_at(s: Seq<char>, c: char, i: int)
    requires
        0 <= i < s.len(),
        s[i] == c,
        forall|j: int| 0 <= j < i ==> s[j] != c,
    ensures
        after_first(s, c) =~= s.subrange(i + 1, s.len() as int),
    decreases s.len(),
{
    if i == 0 {
        assert(s.drop_first() =~= s.subrange(1, s.len() as int));
    } else {
        let t = s.drop_first();
        assert(t[i - 1] == c);
        assert(forall|j: int| 0 <= j < i - 1 ==> t[j] == s[j + 1] && s[j + 1] != c);
        lemma_after_first_at(t, c, i - 1);
        assert(t.subrange(i, t.len() as int) =~= s.subrange(i + 1, s.len() as int));
    }
}

/// When the last occurrence of `c` in `s` is at `i`, `after_last` is the part
/// after `i` and `before_last` the part before it.
pub proof fn lemma_last_occurrence(s: Seq<char>, c: char, i: int)
    requires
        0 <= i < s.len(),
        s[i] == c,
        forall|j: int| i < j < s.len() ==> s[j] != c,
    ensures
        after_last(s, c) =~= s.subrange(i + 1, s.len() as int),
        before_last(s, c) =~= s.subrange(0, i),
    decreases s.len(),
{
    let t = s.drop_first();
    if i == 0 {
        assert(forall|j: int| 0 <= j < t.len() ==> t[j] == s[j + 1] && s[j + 1] != c);
        assert(!t.contains(c));
        assert(t =~= s.subrange(1, s.len() as int));
        assert(s.subrange(0, 0) =~= Seq::<char>::empty());
    } else {
        assert(t[i - 1] == c);
        assert(forall|j: int| i - 1 < j < t.len() ==> t[j] == s[j + 1] && s[j + 1] != c);
        assert(t.contains(c));
        lemma_last_occurrence(t, c, i - 1);
        assert(t.subrange(i, t.len() as int) =~= s.subrange(i + 1, s.len() as int));
        assert(seq![s[0]] + t.subrange(0, i - 1) =~= s.subrange(0, i));
    }
}

/// When `k` digits start `s` and the character at `k`, if any, is not a
/// digit, the leading digit run has length exactly `k`.
pub proof fn lemma_digits_prefix(s: Seq<char>, k: int)
    requires
        0 <= k <= s.len(),
        forall|j: int| 0 <= j < k ==> is_digit_char(s[j]),
        k == s.len() || !is_digit_char(s[k]),
    ensures
        digits_prefix_len(s) == k,
    decreases s.len(),
{
    if k == 0 {
    } else {
        let t = s.drop_first();
        assert(forall|j: int| 0 <= j < k - 1 ==> t[j] == s[j + 1] && is_digit_char(s[j + 1]));
        assert(k - 1 == t.len() || !is_digit_char(t[k - 1]));
        lemma_digits_prefix(t, k - 1);
    }
}

/// Index of the first occurrence of `c` in `s`, if any.
pub fn find_first(s: &str, c: char) -> (r: Option<usize>)
    ensures
        match r {
            Some(i) => i < s@.len() && s@[i as int] == c && (forall|j: int|
                0 <= j < i ==> s@[j] != c),
            None => !s@.contains(c),
        },
{
    let n: usize = s.unicode_len();
    let mut i: usize = 0;
    while i < n
        invariant
            i <= n,
            n == s@.len(),
            forall|j: int| 0 <= j < i ==> s@[j] != c,
        decreases n - i,
    {
        if s.get_char(i) == c {
            return Some(i);
        }
        i = i + 1;
    }
    None
}

/// Index of the last occurrence of `c` in `s`, if any.
pub fn find_last(s: &str, c: char) -> (r: Option<usize>)
    ensures
        match r {
            Some(i) => i < s@.len() && s@[i as int] == c && (forall|j: int|
                i < j < s@.len() ==> s@[j] != c),
            None => !s@.contains(c),
        },
{
    let n: usize = s.unicode_len();
    let mut i: usize = 0;
    let mut found: bool = false;
    let mut idx: usize = 0;
    while i < n
        invariant
            i <= n,
            n == s@.len(),
            found ==> idx < i && s@[idx as int] == c && (forall|j: int|
                idx < j < i ==> s@[j] != c),
            !found ==> (forall|j: int| 0 <= j < i ==> s@[j] != c),
        decreases n - i,
    {
        if s.get_char(i) == c {
            found = true;
            idx = i;
        }
        i = i + 1;
    }
    if found {
        Some(idx)
    } else {
        None
    }
}

/// The characters of `s` after its first `c`, or empty when `c` is absent.
pub fn suffix_after_first(s: &str, c: char) -> (r: String)
    ensures
        r@ == after_first(s@, c),
{
    let n: usize = s.unicode_len();
    match find_first(s, c) {
        Some(i) => {
            proof {
                lemma_after_first_at(s@, c, i as int);
            }
            s.substring_char(i + 1, n).to_owned()
        },
        None => {
            proof {
                lemma_sep_absent(s@, c);
            }
            String::new()
        },
    }
}

/// The final path component of `s`: the characters after the last `/`.
pub fn final_component(s: &str) -> (r: String)
    ensures
        r@ == after_last(s@, '/'),
{
    let n: usize = s.unicode_len();
    match find_last(s, '/') {
        Some(i) => {
            proof {
                lemma_last_occurrence(s@, '/', i as int);
            }
            s.substring_char(i + 1, n).to_owned()
        },
        None => {
            proof {
                lemma_sep_absent(s@, '/');
            }
            s.to_owned()
        },
    }
}

/// The parent of path `s`: the characters before the last `/`.
pub fn parent_component(s: &str) -> (r: String)
    ensures
        r@ == before_last(s@, '/'),
{
    match find_last(s, '/') {
        Some(i) => {
            proof {
                lemma_last_occurrence(s@, '/', i as int);
            }
            s.substring_char(0, i).to_owned()
        },
        None => {
            proof {
                lemma_sep_absent(s@, '/');
            }
            String::new()
        },
    }
}

/// The `/`-separated components of `s`, in order.
pub fn split_components(s: &str) -> (r: Vec<String>)
    ensures
        r@.len() == split_on(s@, '/').len(),
        forall|i: int| 0 <= i < r@.len() ==> r@[i]@ == split_on(s@, '/')[i],
    decreases s@.len(),
{
    let n: usize = s.unicode_len();
    match find_first(s, '/') {
        Some(i) => {
            proof {
                lemma_split_at_first(s@, '/', i as int);
            }
            let head: String = s.substring_char(0, i).to_owned();
            let tail: &str = s.substring_char(i + 1, n);
            let mut rest: Vec<String> = split_components(tail);
            rest.insert(0, head);
            rest
        },
        None => {
            proof {
                lemma_split_absent(s@, '/');
            }
            let mut one: Vec<String> = Vec::new();
            one.push(s.to_owned());
            one
        },
    }
}

/// Whether `p` starts `s`.
pub fn has_prefix(s: &str, p: &str) -> (b: bool)
    ensures
        b == prefix_of(s@, p@),
{
    let n: usize = s.unicode_len();
    let m: usize = p.unicode_len();
    if m > n {
        return false;
    }
    let mut i: usize = 0;
    while i < m
        invariant
            i <= m,
            m <= n,
            n == s@.len(),
            m == p@.len(),
            forall|j: int| 0 <= j < i ==> s@[j] == p@[j],
        decreases m - i,
    {
        if s.get_char(i) != p.get_char(i) {
            assert(s@.subrange(0, m as int)[i as int] != p@[i as int]);
            return false;
        }
        i = i + 1;
    }
    assert(s@.subrange(0, m as int) =~= p@);
    true
}

/// Whether two strings hold the same characters.
pub fn str_eq(a: &str, b: &str) -> (r: bool)
    ensures
        r == (a@ == b@),
{
    let n: usize = a.unicode_len();
    let m: usize = b.unicode_len();
    if n != m {
        return false;
    }
    let mut i: usize = 0;
    while i < n
        invariant
            i <= n,
            n == a@.len(),
            n == b@.len(),
            forall|j: int| 0 <= j < i ==> a@[j] == b@[j],
        decreases n - i,
    {
        if a.get_char(i) != b.get_char(i) {
            return false;
        }
        i = i + 1;
    }
    assert(a@ =~= b@);
    true
}

} // verus!
