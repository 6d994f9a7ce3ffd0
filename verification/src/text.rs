//! Character-level string operations with their meaning stated over `Seq<char>`.

use vstd::prelude::*;

verus! {

/// Appends one character to a `String` (std's `String::push`).
#[verifier::external_body]
pub(crate) fn push_char(s: &mut String, c: char)
    ensures
        final(s)@ == old(s)@.push(c),
{
    s.push(c);
}

/// The characters of a string slice, in order.
pub fn to_chars(s: &str) -> (v: Vec<char>)
    ensures
        v@ == s@,
{
    let mut v: Vec<char> = Vec::new();
    for c in it: s.chars()
        invariant
            it.seq() == s@,
            v@ == it.seq().take(it.index() as int),
    {
        v.push(c);
    }
    v
}

/// A `String` holding exactly the given characters.
pub fn from_chars(v: &[char]) -> (s: String)
    ensures
        s@ == v@,
{
    let mut s = String::new();
    let mut i: usize = 0;
    while i < v.len()
        invariant
            i <= v.len(),
            s@ == v@.take(i as int),
        decreases v.len() - i,
    {
        push_char(&mut s, v[i]);
        i = i + 1;
        assert(v@.take(i as int) == v@.take(i - 1).push(v@[i - 1]));
    }
    assert(v@.take(v.len() as int) == v@);
    s
}

} // verus!

verus! {

/// Unicode `White_Space`: the characters that `str::trim` removes.
pub open spec fn is_space(c: char) -> bool {
    let v = c as u32;
    ||| 0x09 <= v && v <= 0x0D
    ||| v == 0x20
    ||| v == 0x85
    ||| v == 0xA0
    ||| v == 0x1680
    ||| 0x2000 <= v && v <= 0x200A
    ||| v == 0x2028
    ||| v == 0x2029
    ||| v == 0x202F
    ||| v == 0x205F
    ||| v == 0x3000
}

/// The first position at or after `i` that holds `c`, or the length when none does.
pub open spec fn first_from(s: Seq<char>, c: char, i: int) -> int
    decreases s.len() - i,
{
    if i < 0 || i >= s.len() {
        s.len() as int
    } else if s[i] == c {
        i
    } else {
        first_from(s, c, i + 1)
    }
}

/// The last position that holds `c`, if any.
pub open spec fn last_of(s: Seq<char>, c: char) -> Option<int>
    decreases s.len(),
{
    if s.len() == 0 {
        None
    } else if s.last() == c {
        Some(s.len() - 1)
    } else {
        last_of(s.drop_last(), c)
    }
}

/// `p` occurs in `s` starting at position `i`.
pub open spec fn occurs_at(s: Seq<char>, p: Seq<char>, i: int) -> bool {
    0 <= i && i + p.len() <= s.len() && s.subrange(i, i + p.len()) == p
}

/// `p` occurs somewhere in `s`.
pub open spec fn contains(s: Seq<char>, p: Seq<char>) -> bool {
    exists|i: int| occurs_at(s, p, i)
}

/// The first position at or after `i` where `p` occurs.
pub open spec fn find_from(s: Seq<char>, p: Seq<char>, i: int) -> Option<int>
    decreases s.len() - i,
{
    if i < 0 || i + p.len() > s.len() {
        None
    } else if p.len() == 0 || occurs_at(s, p, i) {
        Some(i)
    } else {
        find_from(s, p, i + 1)
    }
}

/// The first position at or after `i` whose character does not satisfy `pred`, or the length.
pub open spec fn skip_while(s: Seq<char>, pred: spec_fn(char) -> bool, i: int) -> int
    decreases s.len() - i,
{
    if i < 0 || i >= s.len() {
        s.len() as int
    } else if pred(s[i]) {
        skip_while(s, pred, i + 1)
    } else {
        i
    }
}

/// Going back from `j` no further than `lo`: the end of the span once trailing characters
/// that satisfy `pred` are dropped.
pub open spec fn back_while(s: Seq<char>, pred: spec_fn(char) -> bool, lo: int, j: int) -> int
    decreases j - lo,
{
    if j <= lo || j > s.len() {
        j
    } else if pred(s[j - 1]) {
        back_while(s, pred, lo, j - 1)
    } else {
        j
    }
}

pub open spec fn space() -> spec_fn(char) -> bool {
    |c: char| is_space(c)
}

pub open spec fn is_char(c: char) -> spec_fn(char) -> bool {
    |d: char| d == c
}

/// `str::trim`: leading and trailing white space removed.
pub open spec fn trim(s: Seq<char>) -> Seq<char> {
    let a = skip_while(s, space(), 0);
    s.subrange(a, back_while(s, space(), a, s.len() as int))
}

/// `str::trim_start_matches(c)` for a character `c`.
pub open spec fn trim_start_char(s: Seq<char>, c: char) -> Seq<char> {
    s.subrange(skip_while(s, is_char(c), 0), s.len() as int)
}

/// `str::trim_matches(c)` for a character `c`: every leading and trailing `c` removed.
pub open spec fn trim_char(s: Seq<char>, c: char) -> Seq<char> {
    let a = skip_while(s, is_char(c), 0);
    s.subrange(a, back_while(s, is_char(c), a, s.len() as int))
}

/// Where the text starts once every leading copy of `p` (non-empty) is removed.
pub open spec fn strip_all_from(s: Seq<char>, p: Seq<char>, i: int) -> int
    decreases s.len() - i,
{
    if p.len() > 0 && occurs_at(s, p, i) {
        strip_all_from(s, p, i + p.len())
    } else {
        i
    }
}

/// `str::trim_start_matches(p)` for a non-empty string `p`.
pub open spec fn trim_start_str(s: Seq<char>, p: Seq<char>) -> Seq<char> {
    s.subrange(strip_all_from(s, p, 0), s.len() as int)
}

/// `s` starts with `p`.
pub open spec fn starts_with(s: Seq<char>, p: Seq<char>) -> bool {
    occurs_at(s, p, 0)
}

/// Every character of `s` is an ASCII digit.
pub open spec fn all_digits(s: Seq<char>) -> bool {
    forall|i: int| 0 <= i < s.len() ==> '0' <= #[trigger] s[i] && s[i] <= '9'
}

pub fn is_space_char(c: char) -> (r: bool)
    ensures
        r == is_space(c),
{
    let v = c as u32;
    (0x09 <= v && v <= 0x0D) || v == 0x20 || v == 0x85 || v == 0xA0 || v == 0x1680 || (0x2000
        <= v && v <= 0x200A) || v == 0x2028 || v == 0x2029 || v == 0x202F || v == 0x205F || v
        == 0x3000
}

/// `first_from` computed.
pub fn first_index(s: &[char], c: char, from: usize) -> (r: usize)
    requires
        from <= s.len(),
    ensures
        r as int == first_from(s@, c, from as int),
        from <= r <= s.len(),
{
    let mut j = from;
    while j < s.len() && s[j] != c
        invariant
            from <= j <= s.len(),
            first_from(s@, c, from as int) == first_from(s@, c, j as int),
        decreases s.len() - j,
    {
        j = j + 1;
    }
    j
}

pub proof fn lemma_last_of(s: Seq<char>, c: char)
    ensures
        last_of(s, c) matches Some(k) ==> 0 <= k < s.len() && s[k] == c && forall|j: int|
            k < j < s.len() ==> s[j] != c,
        last_of(s, c) is None ==> forall|j: int| 0 <= j < s.len() ==> s[j] != c,
    decreases s.len(),
{
    if s.len() > 0 && s.last() != c {
        lemma_last_of(s.drop_last(), c);
        assert forall|j: int| 0 <= j < s.len() - 1 implies s.drop_last()[j] == s[j] by {}
    }
}

/// `last_of` computed.
pub fn last_index(s: &[char], c: char) -> (r: Option<usize>)
    ensures
        r matches Some(i) ==> last_of(s@, c) == Some(i as int) && i < s.len(),
        r is None ==> last_of(s@, c) is None,
{
    let mut j = s.len();
    assert(s@.take(j as int) =~= s@);
    while j > 0 && s[j - 1] != c
        invariant
            j <= s.len(),
            last_of(s@, c) == last_of(s@.take(j as int), c),
        decreases j,
    {
        assert(s@.take(j - 1) =~= s@.take(j as int).drop_last());
        j = j - 1;
    }
    proof {
        lemma_last_of(s@, c);
    }
    if j == 0 {
        assert(s@.take(0) =~= Seq::<char>::empty());
        None
    } else {
        Some(j - 1)
    }
}

/// Whether `p` occurs in `s` at position `i`.
pub fn matches_at(s: &[char], p: &[char], i: usize) -> (r: bool)
    ensures
        r == occurs_at(s@, p@, i as int),
{
    if i > s.len() || p.len() > s.len() - i {
        return false;
    }
    let mut k: usize = 0;
    while k < p.len()
        invariant
            i + p.len() <= s.len(),
            k <= p.len(),
            forall|m: int| 0 <= m < k ==> s@[i + m] == p@[m],
        decreases p.len() - k,
    {
        if s[i + k] != p[k] {
            assert(s@.subrange(i as int, i + p.len())[k as int] != p@[k as int]);
            return false;
        }
        k = k + 1;
    }
    assert(s@.subrange(i as int, i + p.len()) =~= p@);
    true
}

/// `find_from` computed.
pub fn find_index(s: &[char], p: &[char], from: usize) -> (r: Option<usize>)
    ensures
        r matches Some(i) ==> find_from(s@, p@, from as int) == Some(i as int),
        r is None ==> find_from(s@, p@, from as int) is None,
{
    if p.len() == 0 {
        if from <= s.len() {
            assert(s@.subrange(from as int, from as int) =~= p@);
            return Some(from);
        }
        return None;
    }
    let mut j = from;
    while j <= s.len() && p.len() <= s.len() - j
        invariant
            from <= j,
            p.len() > 0,
            find_from(s@, p@, from as int) == find_from(s@, p@, j as int),
        decreases s.len() + 1 - j,
    {
        if matches_at(s, p, j) {
            return Some(j);
        }
        j = j + 1;
    }
    None
}

pub proof fn lemma_find_from_contains(s: Seq<char>, p: Seq<char>, i: int)
    requires
        0 <= i,
    ensures
        find_from(s, p, i) is Some <==> exists|k: int| k >= i && occurs_at(s, p, k),
        find_from(s, p, i) matches Some(k) ==> k >= i && occurs_at(s, p, k),
    decreases s.len() - i,
{
    if i + p.len() > s.len() {
    } else if p.len() == 0 || occurs_at(s, p, i) {
        assert(s.subrange(i, i + p.len()) =~= p);
        assert(occurs_at(s, p, i));
    } else {
        lemma_find_from_contains(s, p, i + 1);
        if exists|k: int| k >= i && occurs_at(s, p, k) {
            let k = choose|k: int| k >= i && occurs_at(s, p, k);
            assert(k != i);
        }
    }
}

pub proof fn lemma_find_from(s: Seq<char>, p: Seq<char>, i: int)
    requires
        0 <= i,
    ensures
        find_from(s, p, i) matches Some(k) ==> i <= k && k + p.len() <= s.len(),
    decreases s.len() - i,
{
    if i + p.len() <= s.len() && !(p.len() == 0 || occurs_at(s, p, i)) {
        lemma_find_from(s, p, i + 1);
    }
}

/// Whether `p` occurs anywhere in `s`.
pub fn contains_chars(s: &[char], p: &[char]) -> (r: bool)
    ensures
        r == contains(s@, p@),
{
    proof {
        lemma_find_from_contains(s@, p@, 0);
    }
    find_index(s, p, 0).is_some()
}

/// `skip_while` for white space, computed.
pub fn skip_spaces(s: &[char], from: usize) -> (r: usize)
    requires
        from <= s.len(),
    ensures
        r as int == skip_while(s@, space(), from as int),
        from <= r <= s.len(),
{
    let mut j = from;
    while j < s.len() && is_space_char(s[j])
        invariant
            from <= j <= s.len(),
            skip_while(s@, space(), from as int) == skip_while(s@, space(), j as int),
        decreases s.len() - j,
    {
        j = j + 1;
    }
    j
}

/// `back_while` for white space, computed.
pub fn back_spaces(s: &[char], lo: usize, hi: usize) -> (r: usize)
    requires
        lo <= hi <= s.len(),
    ensures
        r as int == back_while(s@, space(), lo as int, hi as int),
        lo <= r <= hi,
{
    let mut j = hi;
    while j > lo && is_space_char(s[j - 1])
        invariant
            lo <= j <= hi <= s.len(),
            back_while(s@, space(), lo as int, hi as int) == back_while(
                s@,
                space(),
                lo as int,
                j as int,
            ),
        decreases j - lo,
    {
        j = j - 1;
    }
    j
}

/// `skip_while` for one character, computed.
pub fn skip_char(s: &[char], c: char, from: usize) -> (r: usize)
    requires
        from <= s.len(),
    ensures
        r as int == skip_while(s@, is_char(c), from as int),
        from <= r <= s.len(),
{
    let mut j = from;
    while j < s.len() && s[j] == c
        invariant
            from <= j <= s.len(),
            skip_while(s@, is_char(c), from as int) == skip_while(s@, is_char(c), j as int),
        decreases s.len() - j,
    {
        j = j + 1;
    }
    j
}

/// `back_while` for one character, computed.
pub fn back_char(s: &[char], c: char, lo: usize, hi: usize) -> (r: usize)
    requires
        lo <= hi <= s.len(),
    ensures
        r as int == back_while(s@, is_char(c), lo as int, hi as int),
        lo <= r <= hi,
{
    let mut j = hi;
    while j > lo && s[j - 1] == c
        invariant
            lo <= j <= hi <= s.len(),
            back_while(s@, is_char(c), lo as int, hi as int) == back_while(
                s@,
                is_char(c),
                lo as int,
                j as int,
            ),
        decreases j - lo,
    {
        j = j - 1;
    }
    j
}

/// `strip_all_from` computed, for a non-empty `p`.
pub fn strip_all(s: &[char], p: &[char]) -> (r: usize)
    requires
        p.len() > 0,
    ensures
        r as int == strip_all_from(s@, p@, 0),
        r <= s.len(),
{
    let mut j: usize = 0;
    while matches_at(s, p, j)
        invariant
            j <= s.len(),
            p.len() > 0,
            strip_all_from(s@, p@, 0) == strip_all_from(s@, p@, j as int),
        decreases s.len() - j,
    {
        j = j + p.len();
    }
    j
}

/// The characters from `a` up to `b`, as a new vector.
pub fn copy_range(s: &[char], a: usize, b: usize) -> (r: Vec<char>)
    requires
        a <= b <= s.len(),
    ensures
        r@ == s@.subrange(a as int, b as int),
{
    let mut r: Vec<char> = Vec::new();
    let mut i = a;
    while i < b
        invariant
            a <= i <= b <= s.len(),
            r@ == s@.subrange(a as int, i as int),
        decreases b - i,
    {
        r.push(s[i]);
        i = i + 1;
        assert(r@ =~= s@.subrange(a as int, i as int));
    }
    r
}

/// Whether two character sequences are equal.
pub fn same_chars(a: &[char], b: &[char]) -> (r: bool)
    ensures
        r == (a@ == b@),
{
    if a.len() != b.len() {
        return false;
    }
    let mut i: usize = 0;
    while i < a.len()
        invariant
            a.len() == b.len(),
            i <= a.len(),
            forall|j: int| 0 <= j < i ==> a@[j] == b@[j],
        decreases a.len() - i,
    {
        if a[i] != b[i] {
            return false;
        }
        i = i + 1;
    }
    assert(a@ =~= b@);
    true
}

/// The characters from `a` up to `b`, as a `String`.
pub fn slice_string(s: &[char], a: usize, b: usize) -> (r: String)
    requires
        a <= b <= s.len(),
    ensures
        r@ == s@.subrange(a as int, b as int),
{
    let mut r = String::new();
    let mut i = a;
    while i < b
        invariant
            a <= i <= b <= s.len(),
            r@ == s@.subrange(a as int, i as int),
        decreases b - i,
    {
        push_char(&mut r, s[i]);
        i = i + 1;
        assert(r@ =~= s@.subrange(a as int, i as int));
    }
    r
}

} // verus!

verus! {

pub proof fn lemma_skip_while(s: Seq<char>, pred: spec_fn(char) -> bool, i: int)
    requires
        0 <= i <= s.len(),
    ensures
        i <= skip_while(s, pred, i) <= s.len(),
        skip_while(s, pred, i) < s.len() ==> !pred(s[skip_while(s, pred, i)]),
        forall|j: int| i <= j < skip_while(s, pred, i) ==> pred(s[j]),
    decreases s.len() - i,
{
    if i < s.len() && pred(s[i]) {
        lemma_skip_while(s, pred, i + 1);
    }
}

pub proof fn lemma_back_while(s: Seq<char>, pred: spec_fn(char) -> bool, lo: int, j: int)
    requires
        0 <= lo <= j <= s.len(),
    ensures
        lo <= back_while(s, pred, lo, j) <= j,
    decreases j - lo,
{
    if j > lo && pred(s[j - 1]) {
        lemma_back_while(s, pred, lo, j - 1);
    }
}

} // verus!
