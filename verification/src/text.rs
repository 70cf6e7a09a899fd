//! Character-level string primitives shared by the agent's parsers and formatters.
//!
//! Strings are viewed as sequences of `char`s; byte lengths are the lengths of
//! their UTF-8 encodings.
use vstd::prelude::*;
use vstd::string::*;
use vstd::utf8::*;

verus! {

broadcast use vstd::string::group_string_axioms;

// ---------------------------------------------------------------------------
// Occurrences of a pattern
// ---------------------------------------------------------------------------
/// `pat` occurs in `s` starting at index `i`.
pub open spec fn occurs_at(s: Seq<char>, pat: Seq<char>, i: int) -> bool {
    &&& 0 <= i
    &&& i + pat.len() <= s.len()
    &&& s.subrange(i, i + pat.len()) == pat
}

/// `pat` occurs somewhere in `s` (what `str::contains` answers).
pub open spec fn contains_seq(s: Seq<char>, pat: Seq<char>) -> bool {
    exists|i: int| occurs_at(s, pat, i)
}

/// The leftmost occurrence of `pat` in `s` at an index of at least `start`.
pub open spec fn find_from(s: Seq<char>, pat: Seq<char>, start: int) -> Option<int>
    decreases s.len() + 1 - start,
{
    if start < 0 || start + pat.len() > s.len() {
        None
    } else if occurs_at(s, pat, start) {
        Some(start)
    } else {
        find_from(s, pat, start + 1)
    }
}

/// What `find_from` returns is the leftmost occurrence at or after `start`.
pub proof fn lemma_find_from(s: Seq<char>, pat: Seq<char>, start: int)
    requires
        0 <= start,
    ensures
        find_from(s, pat, start) matches Some(k) ==> {
            &&& start <= k
            &&& occurs_at(s, pat, k)
            &&& forall|j: int| start <= j < k ==> !occurs_at(s, pat, j)
        },
        find_from(s, pat, start) is None ==> forall|j: int| start <= j ==> !occurs_at(s, pat, j),
    decreases s.len() + 1 - start,
{
    if start + pat.len() > s.len() {
    } else if occurs_at(s, pat, start) {
    } else {
        lemma_find_from(s, pat, start + 1);
    }
}

/// Whether `pat` occurs in `v` at index `i`.
pub fn occurs_at_exec(v: &Vec<char>, pat: &Vec<char>, i: usize) -> (b: bool)
    ensures
        b == occurs_at(v@, pat@, i as int),
{
    if pat.len() > v.len() || i > v.len() - pat.len() {
        return false;
    }
    let mut k: usize = 0;
    while k < pat.len()
        invariant
            k <= pat.len(),
            i + pat.len() <= v.len(),
            forall|j: int| 0 <= j < k ==> v@[i + j] == pat@[j],
        decreases pat.len() - k,
    {
        if v[i + k] != pat[k] {
            assert(v@.subrange(i as int, i + pat.len())[k as int] != pat@[k as int]);
            return false;
        }
        k = k + 1;
    }
    assert(v@.subrange(i as int, i + pat.len()) =~= pat@);
    true
}

/// The leftmost occurrence of `pat` in `v` at or after `start`.
pub fn find_from_exec(v: &Vec<char>, pat: &Vec<char>, start: usize) -> (r: Option<usize>)
    ensures
        r matches Some(k) ==> find_from(v@, pat@, start as int) == Some(k as int),
        r is None ==> find_from(v@, pat@, start as int) is None,
{
    proof {
        lemma_find_from(v@, pat@, start as int);
    }
    if pat.len() > v.len() {
        return None;
    }
    if pat.len() == 0 {
        if start <= v.len() {
            assert(v@.subrange(start as int, start as int) =~= pat@);
            return Some(start);
        }
        return None;
    }
    let mut i = start;
    while i <= v.len() - pat.len()
        invariant
            start <= i,
            1 <= pat.len() <= v.len(),
            forall|j: int| start <= j < i ==> !occurs_at(v@, pat@, j),
            find_from(v@, pat@, start as int) matches Some(k) ==> {
                &&& start <= k
                &&& occurs_at(v@, pat@, k)
                &&& forall|j: int| start <= j < k ==> !occurs_at(v@, pat@, j)
            },
            find_from(v@, pat@, start as int) is None ==> forall|j: int|
                start <= j ==> !occurs_at(v@, pat@, j),
        decreases v.len() - i,
    {
        if occurs_at_exec(v, pat, i) {
            return Some(i);
        }
        i = i + 1;
    }
    None
}

/// Whether `pat` occurs anywhere in `v`.
pub fn contains_exec(v: &Vec<char>, pat: &Vec<char>) -> (b: bool)
    ensures
        b == contains_seq(v@, pat@),
{
    proof {
        lemma_find_from(v@, pat@, 0);
    }
    match find_from_exec(v, pat, 0) {
        Some(k) => {
            assert(occurs_at(v@, pat@, k as int));
            true
        },
        None => false,
    }
}

/// Whether `pat` occurs in `s` (`str::contains` with a string pattern).
pub fn str_contains(s: &str, pat: &str) -> (b: bool)
    ensures
        b == contains_seq(s@, pat@),
{
    let v = chars_of(s);
    let p = chars_of(pat);
    contains_exec(&v, &p)
}

/// Whether two strings hold the same characters.
pub fn str_eq(a: &str, b: &str) -> (r: bool)
    ensures
        r == (a@ == b@),
{
    let x = chars_of(a);
    let y = chars_of(b);
    if x.len() != y.len() {
        return false;
    }
    let mut i: usize = 0;
    while i < x.len()
        invariant
            x@ == a@,
            y@ == b@,
            x.len() == y.len(),
            i <= x.len(),
            forall|j: int| 0 <= j < i ==> x@[j] == y@[j],
        decreases x.len() - i,
    {
        if x[i] != y[i] {
            return false;
        }
        i = i + 1;
    }
    assert(x@ =~= y@);
    true
}

/// Whether `s` begins with `pre`.
pub fn str_starts_with(s: &str, pre: &str) -> (r: bool)
    ensures
        r == occurs_at(s@, pre@, 0),
{
    let v = chars_of(s);
    let p = chars_of(pre);
    occurs_at_exec(&v, &p, 0)
}

// ---------------------------------------------------------------------------
// Converting between characters and strings
// ---------------------------------------------------------------------------
/// The characters of `s`, in order.
pub fn chars_of(s: &str) -> (v: Vec<char>)
    ensures
        v@ == s@,
{
    let mut v: Vec<char> = Vec::new();
    for c in it: s.chars()
        invariant
            v@ == it.seq().take(it.index() as int),
            it.seq() == s@,
    {
        v.push(c);
    }
    v
}

/// Appends one character to a string (`String::push`).
#[verifier::external_body]
pub(crate) fn push_char(s: &mut String, c: char)
    ensures
        final(s)@ == old(s)@.push(c),
{
    s.push(c);
}

/// The string made of the characters `v[lo..hi]`.
pub fn string_of_range(v: &Vec<char>, lo: usize, hi: usize) -> (s: String)
    requires
        lo <= hi <= v.len(),
    ensures
        s@ == v@.subrange(lo as int, hi as int),
{
    let mut s = String::new();
    let mut i = lo;
    while i < hi
        invariant
            lo <= i <= hi <= v.len(),
            s@ == v@.subrange(lo as int, i as int),
        decreases hi - i,
    {
        push_char(&mut s, v[i]);
        assert(v@.subrange(lo as int, i + 1) =~= v@.subrange(lo as int, i as int).push(v@[i as int]));
        i = i + 1;
    }
    s
}

/// Removes the last character of `s` and returns it; an empty string stays
/// empty and gives `None`.
pub fn pop_char(s: &mut String) -> (r: Option<char>)
    ensures
        old(s)@.len() == 0 ==> r is None && final(s)@ == old(s)@,
        old(s)@.len() > 0 ==> r == Some(old(s)@.last()) && final(s)@ == old(s)@.drop_last(),
{
    let v = chars_of(s.as_str());
    if v.len() == 0 {
        return None;
    }
    let last = v[v.len() - 1];
    *s = string_of_range(&v, 0, v.len() - 1);
    assert(v@.subrange(0, v.len() - 1) =~= v@.drop_last());
    Some(last)
}

/// A fresh string holding the characters of `a` followed by those of `b`.
pub fn concat2(a: &str, b: &str) -> (s: String)
    ensures
        s@ == a@ + b@,
{
    let mut s = String::from_str(a);
    s.append(b);
    s
}

// ---------------------------------------------------------------------------
// Whitespace and trimming
// ---------------------------------------------------------------------------
/// Unicode `White_Space`, the set that `char::is_whitespace` and the `\s`
/// class of regular expressions recognise.
pub open spec fn is_ws(c: char) -> bool {
    let u = c as u32;
    ||| 0x09 <= u <= 0x0D
    ||| u == 0x20
    ||| u == 0x85
    ||| u == 0xA0
    ||| u == 0x1680
    ||| 0x2000 <= u <= 0x200A
    ||| u == 0x2028
    ||| u == 0x2029
    ||| u == 0x202F
    ||| u == 0x205F
    ||| u == 0x3000
}

/// Whether `c` is Unicode whitespace.
pub fn is_ws_exec(c: char) -> (b: bool)
    ensures
        b == is_ws(c),
{
    let u = c as u32;
    (0x09 <= u && u <= 0x0D) || u == 0x20 || u == 0x85 || u == 0xA0 || u == 0x1680 || (0x2000
        <= u && u <= 0x200A) || u == 0x2028 || u == 0x2029 || u == 0x202F || u == 0x205F || u
        == 0x3000
}

/// The number of whitespace characters that begin `s`.
pub open spec fn leading_ws(s: Seq<char>) -> nat
    decreases s.len(),
{
    if s.len() > 0 && is_ws(s[0]) {
        1 + leading_ws(s.drop_first())
    } else {
        0
    }
}

/// The number of whitespace characters that end `s`.
pub open spec fn trailing_ws(s: Seq<char>) -> nat
    decreases s.len(),
{
    if s.len() > 0 && is_ws(s.last()) {
        1 + trailing_ws(s.drop_last())
    } else {
        0
    }
}

/// `s` without its leading and trailing whitespace (what `str::trim` gives).
pub open spec fn trim(s: Seq<char>) -> Seq<char> {
    if leading_ws(s) == s.len() {
        Seq::empty()
    } else {
        s.subrange(leading_ws(s) as int, s.len() - trailing_ws(s))
    }
}

/// `leading_ws` counts exactly the whitespace prefix.
pub proof fn lemma_leading_ws(s: Seq<char>)
    ensures
        leading_ws(s) <= s.len(),
        forall|j: int| 0 <= j < leading_ws(s) ==> is_ws(s[j]),
        leading_ws(s) < s.len() ==> !is_ws(s[leading_ws(s) as int]),
    decreases s.len(),
{
    if s.len() > 0 && is_ws(s[0]) {
        lemma_leading_ws(s.drop_first());
        assert forall|j: int| 0 <= j < leading_ws(s) implies is_ws(s[j]) by {
            if j > 0 {
                assert(s[j] == s.drop_first()[j - 1]);
            }
        }
    }
}

/// `trailing_ws` counts exactly the whitespace suffix.
pub proof fn lemma_trailing_ws(s: Seq<char>)
    ensures
        trailing_ws(s) <= s.len(),
        forall|j: int| s.len() - trailing_ws(s) <= j < s.len() ==> is_ws(s[j]),
        trailing_ws(s) < s.len() ==> !is_ws(s[s.len() - trailing_ws(s) - 1]),
    decreases s.len(),
{
    if s.len() > 0 && is_ws(s.last()) {
        lemma_trailing_ws(s.drop_last());
        assert forall|j: int| s.len() - trailing_ws(s) <= j < s.len() implies is_ws(s[j]) by {
            if j < s.len() - 1 {
                assert(s[j] == s.drop_last()[j]);
            }
        }
    }
}

/// A whitespace prefix of `s` of length `n` followed by a non-whitespace
/// character (or the end) is the whole of `leading_ws(s)`.
pub proof fn lemma_leading_ws_unique(s: Seq<char>, n: int)
    requires
        0 <= n <= s.len(),
        forall|j: int| 0 <= j < n ==> is_ws(s[j]),
        n < s.len() ==> !is_ws(s[n]),
    ensures
        leading_ws(s) == n,
    decreases s.len(),
{
    if n > 0 {
        lemma_leading_ws_unique(s.drop_first(), n - 1);
    }
}

/// A whitespace suffix of `s` of length `n` preceded by a non-whitespace
/// character (or the start) is the whole of `trailing_ws(s)`.
pub proof fn lemma_trailing_ws_unique(s: Seq<char>, n: int)
    requires
        0 <= n <= s.len(),
        forall|j: int| s.len() - n <= j < s.len() ==> is_ws(s[j]),
        n < s.len() ==> !is_ws(s[s.len() - n - 1]),
    ensures
        trailing_ws(s) == n,
    decreases s.len(),
{
    if n > 0 {
        let t = s.drop_last();
        assert forall|j: int| t.len() - (n - 1) <= j < t.len() implies is_ws(t[j]) by {
            assert(t[j] == s[j]);
        }
        if n - 1 < t.len() {
            assert(t[t.len() - (n - 1) - 1] == s[s.len() - n - 1]);
        }
        lemma_trailing_ws_unique(t, n - 1);
    }
}

/// The bounds `[a, b)` of the trimmed part of `v[lo..hi]`.
pub fn trim_range(v: &Vec<char>, lo: usize, hi: usize) -> (r: (usize, usize))
    requires
        lo <= hi <= v.len(),
    ensures
        lo <= r.0 <= r.1 <= hi,
        v@.subrange(r.0 as int, r.1 as int) == trim(v@.subrange(lo as int, hi as int)),
{
    let ghost s = v@.subrange(lo as int, hi as int);
    let mut a = lo;
    while a < hi && is_ws_exec(v[a])
        invariant
            lo <= a <= hi <= v.len(),
            forall|j: int| lo <= j < a ==> is_ws(v@[j]),
        decreases hi - a,
    {
        a = a + 1;
    }
    proof {
        lemma_leading_ws_unique(s, a - lo);
    }
    if a == hi {
        assert(v@.subrange(a as int, a as int) =~= Seq::<char>::empty());
        return (a, a);
    }
    let mut b = hi;
    while b > a && is_ws_exec(v[b - 1])
        invariant
            lo <= a < hi,
            a <= b <= hi <= v.len(),
            !is_ws(v@[a as int]),
            forall|j: int| b <= j < hi ==> is_ws(v@[j]),
        decreases b - a,
    {
        b = b - 1;
    }
    proof {
        lemma_trailing_ws_unique(s, hi - b);
        assert(v@.subrange(a as int, b as int) =~= s.subrange(a - lo, s.len() - (hi - b)));
    }
    (a, b)
}

/// `s` without its leading and trailing whitespace (`str::trim`).
pub fn trim_str(s: &str) -> (t: String)
    ensures
        t@ == trim(s@),
{
    let v = chars_of(s);
    let (a, b) = trim_range(&v, 0, v.len());
    assert(v@.subrange(0, v@.len() as int) =~= v@);
    string_of_range(&v, a, b)
}

// ---------------------------------------------------------------------------
// Byte lengths (UTF-8)
// ---------------------------------------------------------------------------
/// The number of bytes of the UTF-8 encoding of `s` (what `str::len` gives).
pub open spec fn byte_len(s: Seq<char>) -> nat {
    encode_utf8(s).len()
}

/// The UTF-8 encoding of a concatenation is the concatenation of the encodings.
pub proof fn lemma_encode_concat(a: Seq<char>, b: Seq<char>)
    ensures
        encode_utf8(a + b) == encode_utf8(a) + encode_utf8(b),
    decreases a.len(),
{
    if a.len() == 0 {
        assert(a + b =~= b);
    } else {
        assert((a + b).drop_first() =~= a.drop_first() + b);
        lemma_encode_concat(a.drop_first(), b);
    }
}

/// The width in bytes of one character.
pub open spec fn char_width(c: char) -> nat {
    encode_scalar(c as u32).len()
}

/// The byte length of `c` in UTF-8.
pub fn char_width_exec(c: char) -> (w: usize)
    ensures
        w == char_width(c),
        1 <= w <= 4,
{
    proof {
        char_is_scalar(c);
    }
    let u = c as u32;
    if u <= 0x7F {
        1
    } else if u <= 0x7FF {
        2
    } else if u <= 0xFFFF {
        3
    } else {
        4
    }
}

/// The byte length of a sequence adds up its characters' widths.
pub proof fn lemma_byte_len_push(s: Seq<char>, c: char)
    ensures
        byte_len(s.push(c)) == byte_len(s) + char_width(c),
{
    lemma_encode_concat(s, seq![c]);
    assert(s.push(c) =~= s + seq![c]);
    assert(seq![c].drop_first() =~= Seq::<char>::empty());
    assert(encode_utf8(seq![c]) == encode_scalar(c as u32) + encode_utf8(Seq::<char>::empty()));
    assert(encode_utf8(Seq::<char>::empty()) =~= Seq::<u8>::empty());
}

/// The byte length of a concatenation is the sum of the byte lengths.
pub proof fn lemma_byte_len_concat(a: Seq<char>, b: Seq<char>)
    ensures
        byte_len(a + b) == byte_len(a) + byte_len(b),
{
    lemma_encode_concat(a, b);
}

/// Byte length of a prefix never exceeds that of the whole.
pub proof fn lemma_byte_len_prefix(s: Seq<char>, k: int)
    requires
        0 <= k <= s.len(),
    ensures
        byte_len(s.take(k)) <= byte_len(s),
{
    lemma_byte_len_concat(s.take(k), s.skip(k));
    assert(s.take(k) + s.skip(k) =~= s);
}

/// Byte offset `b` falls on a character boundary of `s`.
pub open spec fn is_boundary(s: Seq<char>, b: int) -> bool {
    exists|k: int| 0 <= k <= s.len() && byte_len(s.take(k)) == b
}

/// The prefix of `s` that ends at byte offset `b`, when `b` is a boundary.
pub open spec fn byte_prefix(s: Seq<char>, b: int) -> Seq<char> {
    s.take(choose|k: int| 0 <= k <= s.len() && byte_len(s.take(k)) == b)
}

/// Byte lengths of prefixes strictly grow with the number of characters.
pub proof fn lemma_prefix_byte_len_strict(s: Seq<char>, i: int, j: int)
    requires
        0 <= i < j <= s.len(),
    ensures
        byte_len(s.take(i)) < byte_len(s.take(j)),
    decreases j - i,
{
    assert(s.take(j) =~= s.take(j - 1).push(s[j - 1]));
    lemma_byte_len_push(s.take(j - 1), s[j - 1]);
    char_is_scalar(s[j - 1]);
    if i < j - 1 {
        lemma_prefix_byte_len_strict(s, i, j - 1);
    }
}

/// The character count at a boundary is unique.
pub proof fn lemma_boundary_unique(s: Seq<char>, i: int, j: int)
    requires
        0 <= i <= s.len(),
        0 <= j <= s.len(),
        byte_len(s.take(i)) == byte_len(s.take(j)),
    ensures
        i == j,
{
    if i < j {
        lemma_prefix_byte_len_strict(s, i, j);
    } else if j < i {
        lemma_prefix_byte_len_strict(s, j, i);
    }
}

/// The number of bytes of `s` (`str::len`).
pub fn str_byte_len(s: &str) -> (n: usize)
    ensures
        n == byte_len(s@),
{
    let b = s.as_bytes();
    b.len()
}

/// The number of characters of `s` whose encoding fills exactly `limit`
/// bytes, or `None` when `limit` does not fall on a character boundary.
pub fn boundary_index(v: &Vec<char>, limit: usize) -> (r: Option<usize>)
    ensures
        r matches Some(k) ==> k <= v.len() && byte_len(v@.take(k as int)) == limit,
        r is None ==> !is_boundary(v@, limit as int),
{
    let mut k: usize = 0;
    let mut acc: usize = 0;
    assert(v@.take(0) =~= Seq::<char>::empty());
    while k < v.len() && acc < limit
        invariant
            k <= v.len(),
            acc == byte_len(v@.take(k as int)),
            acc <= limit,
            forall|j: int| 0 <= j < k ==> byte_len(v@.take(j)) < limit,
        decreases v.len() - k,
    {
        let w = char_width_exec(v[k]);
        if w > limit - acc {
            proof {
                assert(v@.take(k + 1) =~= v@.take(k as int).push(v@[k as int]));
                lemma_byte_len_push(v@.take(k as int), v@[k as int]);
                assert forall|j: int| 0 <= j <= v.len() implies byte_len(v@.take(j)) != limit by {
                    if j > k + 1 {
                        lemma_prefix_byte_len_strict(v@, k + 1, j);
                    }
                }
            }
            return None;
        }
        proof {
            assert(v@.take(k + 1) =~= v@.take(k as int).push(v@[k as int]));
            lemma_byte_len_push(v@.take(k as int), v@[k as int]);
        }
        acc = acc + w;
        k = k + 1;
    }
    if acc == limit {
        Some(k)
    } else {
        proof {
            assert forall|j: int| 0 <= j <= v.len() implies byte_len(v@.take(j)) != limit by {
                if j > k {
                    lemma_prefix_byte_len_strict(v@, k as int, j);
                }
            }
        }
        None
    }
}

/// The number of characters of `s` that fill its first `b` bytes, when `b`
/// is a boundary.
pub open spec fn char_index_at(s: Seq<char>, b: int) -> int {
    choose|k: int| 0 <= k <= s.len() && byte_len(s.take(k)) == b
}

/// The byte range `a..b` of `s` starts and ends on character boundaries, in
/// order (what slicing a `str` by bytes asks).
pub open spec fn byte_range_ok(s: Seq<char>, a: int, b: int) -> bool {
    a <= b && is_boundary(s, a) && is_boundary(s, b)
}

/// The characters of `s` in the byte range `a..b`.
pub open spec fn byte_slice(s: Seq<char>, a: int, b: int) -> Seq<char> {
    s.subrange(char_index_at(s, a), char_index_at(s, b))
}

/// The characters of `v` in the byte range `a..b`, or `None` when that range
/// does not start and end on character boundaries in order.
pub fn byte_slice_of(v: &Vec<char>, a: usize, b: usize) -> (r: Option<String>)
    ensures
        r is Some <==> byte_range_ok(v@, a as int, b as int),
        r matches Some(t) ==> t@ == byte_slice(v@, a as int, b as int),
{
    if a > b {
        return None;
    }
    let ka = match boundary_index(v, a) {
        Some(k) => k,
        None => return None,
    };
    let kb = match boundary_index(v, b) {
        Some(k) => k,
        None => return None,
    };
    proof {
        let ca = char_index_at(v@, a as int);
        let cb = char_index_at(v@, b as int);
        assert(0 <= ca <= v@.len() && byte_len(v@.take(ca)) == a);
        assert(0 <= cb <= v@.len() && byte_len(v@.take(cb)) == b);
        lemma_boundary_unique(v@, ka as int, ca);
        lemma_boundary_unique(v@, kb as int, cb);
        if ka > kb {
            lemma_prefix_byte_len_strict(v@, kb as int, ka as int);
        }
    }
    Some(string_of_range(v, ka, kb))
}

// ---------------------------------------------------------------------------
// Decimal numerals
// ---------------------------------------------------------------------------
/// The decimal digit for `d < 10`.
pub open spec fn digit_char(d: nat) -> char {
    if d == 0 { '0' } else if d == 1 { '1' } else if d == 2 { '2' } else if d == 3 { '3' }
    else if d == 4 { '4' } else if d == 5 { '5' } else if d == 6 { '6' } else if d == 7 { '7' }
    else if d == 8 { '8' } else { '9' }
}

/// The decimal digit for `d < 10`.
pub fn digit_char_exec(d: u64) -> (c: char)
    requires
        d < 10,
    ensures
        c == digit_char(d as nat),
{
    if d == 0 { '0' } else if d == 1 { '1' } else if d == 2 { '2' } else if d == 3 { '3' }
    else if d == 4 { '4' } else if d == 5 { '5' } else if d == 6 { '6' } else if d == 7 { '7' }
    else if d == 8 { '8' } else { '9' }
}

/// The decimal numeral of `n` (what `Display` writes for an unsigned integer).
pub open spec fn decimal(n: nat) -> Seq<char>
    decreases n,
{
    if n < 10 {
        seq![digit_char(n)]
    } else {
        decimal(n / 10).push(digit_char(n % 10))
    }
}

/// The decimal numeral of `n`.
pub fn decimal_string(n: u64) -> (s: String)
    ensures
        s@ == decimal(n as nat),
    decreases n,
{
    if n < 10 {
        let mut s = String::new();
        push_char(&mut s, digit_char_exec(n));
        assert(s@ =~= seq![digit_char(n as nat)]);
        s
    } else {
        let mut s = decimal_string(n / 10);
        push_char(&mut s, digit_char_exec(n % 10));
        s
    }
}

/// The decimal numeral of a signed `n`, with a leading minus when negative.
pub open spec fn signed_decimal(n: int) -> Seq<char> {
    if n < 0 {
        "-"@ + decimal((-n) as nat)
    } else {
        decimal(n as nat)
    }
}

/// The decimal numeral of a signed `n`.
pub fn signed_decimal_string(n: i64) -> (s: String)
    ensures
        s@ == signed_decimal(n as int),
{
    if n < 0 {
        let m: u64 = if n == i64::MIN {
            9223372036854775808u64
        } else {
            (-n) as u64
        };
        let d = decimal_string(m);
        let mut s = String::from_str("-");
        s.append(d.as_str());
        s
    } else {
        decimal_string(n as u64)
    }
}

// ---------------------------------------------------------------------------
// Lines
// ---------------------------------------------------------------------------
/// The lines of `s` as `str::lines` yields them: split after each `\n`, each
/// line without its `\n` and without a `\r` just before that `\n`; a final
/// empty line is not yielded.
pub open spec fn lines_of(s: Seq<char>) -> Seq<Seq<char>>
    decreases s.len(),
{
    match find_from(s, seq!['\n'], 0) {
        None => if s.len() == 0 {
            Seq::empty()
        } else {
            seq![s]
        },
        Some(j) => {
            proof {
                lemma_find_from(s, seq!['\n'], 0);
            }
            let l = s.take(j);
            let l2 = if l.len() > 0 && l.last() == '\r' {
                l.drop_last()
            } else {
                l
            };
            seq![l2] + lines_of(s.skip(j + 1))
        },
    }
}

/// The lines of `s` (`str::lines`).
pub fn split_lines(s: &str) -> (r: Vec<String>)
    ensures
        r@.map_values(|x: String| x@) == lines_of(s@),
{
    let v = chars_of(s);
    let nl = chars_of("\n");
    proof {
        reveal_strlit("\n");
        assert(nl@ =~= seq!['\n']);
    }
    let mut out: Vec<String> = Vec::new();
    let mut p: usize = 0;
    assert(v@.skip(0) =~= v@);
    loop
        invariant
            p <= v.len(),
            v@ == s@,
            nl@ == seq!['\n'],
            lines_of(v@) == out@.map_values(|x: String| x@) + lines_of(v@.skip(p as int)),
        decreases v.len() - p,
    {
        let ghost rest = v@.skip(p as int);
        let ghost before = out@.map_values(|x: String| x@);
        proof {
            lemma_find_from(v@, nl@, p as int);
            lemma_find_from(rest, nl@, 0);
        }
        match find_from_exec(&v, &nl, p) {
            None => {
                proof {
                    assert forall|j: int| 0 <= j implies !occurs_at(rest, nl@, j) by {
                        if occurs_at(rest, nl@, j) {
                            assert(rest.subrange(j, j + 1) =~= v@.subrange(p + j, p + j + 1));
                            assert(occurs_at(v@, nl@, p + j));
                        }
                    }
                    if find_from(rest, nl@, 0) is Some {
                        let k = find_from(rest, nl@, 0)->0;
                        assert(occurs_at(rest, nl@, k));
                    }
                    assert(find_from(rest, seq!['\n'], 0) is None);
                }
                if p < v.len() {
                    let line = string_of_range(&v, p, v.len());
                    out.push(line);
                    assert(lines_of(rest) == seq![rest]);
                    assert(out@.map_values(|x: String| x@) =~= before + seq![rest]);
                } else {
                    assert(rest.len() == 0);
                    assert(lines_of(rest) == Seq::<Seq<char>>::empty());
                    assert(out@.map_values(|x: String| x@) =~= before + Seq::<Seq<char>>::empty());
                }
                return out;
            },
            Some(j) => {
                proof {
                    assert(occurs_at(rest, nl@, j - p)) by {
                        assert(rest.subrange(j - p, j - p + 1) =~= v@.subrange(j as int, j + 1));
                    }
                    assert forall|m: int| 0 <= m < j - p implies !occurs_at(rest, nl@, m) by {
                        if occurs_at(rest, nl@, m) {
                            assert(rest.subrange(m, m + 1) =~= v@.subrange(p + m, p + m + 1));
                            assert(occurs_at(v@, nl@, p + m));
                        }
                    }
                    let k = find_from(rest, nl@, 0);
                    if k is None {
                    } else {
                        let kk = k->0;
                        if kk < j - p {
                        } else if kk > j - p {
                        }
                    }
                    assert(find_from(rest, nl@, 0) == Some(j - p));
                }
                let end = if j > p && v[j - 1] == '\r' {
                    j - 1
                } else {
                    j
                };
                let line = string_of_range(&v, p, end);
                out.push(line);
                proof {
                    let l = rest.take(j - p);
                    assert(l =~= v@.subrange(p as int, j as int));
                    if end < j {
                        assert(l.drop_last() =~= v@.subrange(p as int, end as int));
                    }
                    assert(rest.skip(j - p + 1) =~= v@.skip(j + 1));
                    assert(out@.map_values(|x: String| x@) =~= before.push(line@));
                    assert(before + (seq![line@] + lines_of(v@.skip(j + 1))) =~= before.push(line@) + lines_of(v@.skip(j + 1)));
                }
                p = j + 1;
            },
        }
    }
}

// ---------------------------------------------------------------------------
// Case folding
// ---------------------------------------------------------------------------
/// The lowercase form of `s` by Unicode's case mappings (`str::to_lowercase`).
pub uninterp spec fn lowercase(s: Seq<char>) -> Seq<char>;

/// `str::to_lowercase`: the lowercase form of `s`.
#[verifier::external_body]
pub(crate) fn to_lowercase(s: &str) -> (r: String)
    ensures
        r@ == lowercase(s@),
{
    s.to_lowercase()
}

// ---------------------------------------------------------------------------
// Words and numbers
// ---------------------------------------------------------------------------
/// The number of non-whitespace characters that begin `s`.
pub open spec fn word_len(s: Seq<char>) -> nat
    decreases s.len(),
{
    if s.len() > 0 && !is_ws(s[0]) {
        1 + word_len(s.drop_first())
    } else {
        0
    }
}

/// The whitespace-separated words of `s` (`str::split_whitespace`).
pub open spec fn words(s: Seq<char>) -> Seq<Seq<char>>
    decreases s.len(),
{
    let t = s.skip(leading_ws(s) as int);
    if t.len() == 0 {
        Seq::empty()
    } else {
        proof {
            lemma_leading_ws(s);
            lemma_word_len(t);
            assert(t[0] == s[leading_ws(s) as int]);
        }
        let n = word_len(t);
        seq![t.take(n as int)] + words(t.skip(n as int))
    }
}

pub proof fn lemma_word_len(s: Seq<char>)
    ensures
        word_len(s) <= s.len(),
        forall|j: int| 0 <= j < word_len(s) ==> !is_ws(s[j]),
        word_len(s) < s.len() ==> is_ws(s[word_len(s) as int]),
    decreases s.len(),
{
    if s.len() > 0 && !is_ws(s[0]) {
        lemma_word_len(s.drop_first());
        assert forall|j: int| 0 <= j < word_len(s) implies !is_ws(s[j]) by {
            if j > 0 {
                assert(s[j] == s.drop_first()[j - 1]);
            }
        }
    }
}

proof fn lemma_word_len_unique(s: Seq<char>, n: int)
    requires
        0 <= n <= s.len(),
        forall|j: int| 0 <= j < n ==> !is_ws(s[j]),
        n < s.len() ==> is_ws(s[n]),
    ensures
        word_len(s) == n,
    decreases s.len(),
{
    if n > 0 {
        lemma_word_len_unique(s.drop_first(), n - 1);
    }
}

/// The whitespace-separated words of `s`.
pub fn split_words(s: &str) -> (r: Vec<String>)
    ensures
        r@.map_values(|x: String| x@) == words(s@),
{
    let v = chars_of(s);
    let mut out: Vec<String> = Vec::new();
    let mut p: usize = 0;
    assert(v@.skip(0) =~= v@);
    loop
        invariant
            p <= v.len(),
            v@ == s@,
            words(s@) == out@.map_values(|x: String| x@) + words(v@.skip(p as int)),
        decreases v.len() - p,
    {
        let ghost rest = v@.skip(p as int);
        let ghost before = out@.map_values(|x: String| x@);
        let mut a = p;
        while a < v.len() && is_ws_exec(v[a])
            invariant
                p <= a <= v.len(),
                forall|j: int| p <= j < a ==> is_ws(v@[j]),
            decreases v.len() - a,
        {
            a = a + 1;
        }
        proof {
            lemma_leading_ws_unique(rest, a - p);
            assert(rest.skip(a - p) =~= v@.skip(a as int));
        }
        if a == v.len() {
            assert(words(rest) == Seq::<Seq<char>>::empty());
            assert(out@.map_values(|x: String| x@) =~= before + Seq::<Seq<char>>::empty());
            return out;
        }
        let mut b = a;
        while b < v.len() && !is_ws_exec(v[b])
            invariant
                a <= b <= v.len(),
                forall|j: int| a <= j < b ==> !is_ws(v@[j]),
            decreases v.len() - b,
        {
            b = b + 1;
        }
        let ghost t = v@.skip(a as int);
        proof {
            lemma_word_len_unique(t, b - a);
            assert(t.take(b - a) =~= v@.subrange(a as int, b as int));
            assert(t.skip(b - a) =~= v@.skip(b as int));
        }
        let w = string_of_range(&v, a, b);
        out.push(w);
        assert(out@.map_values(|x: String| x@) =~= before.push(w@));
        assert(before + (seq![w@] + words(v@.skip(b as int))) =~= before.push(w@) + words(v@.skip(b as int)));
        p = b;
    }
}

/// The value of a string of decimal digits.
pub open spec fn digits_value(s: Seq<char>) -> nat
    decreases s.len(),
{
    if s.len() == 0 {
        0
    } else {
        digits_value(s.drop_last()) * 10 + ((s.last() as u32) - ('0' as u32)) as nat
    }
}

/// Every character of `s` is an ASCII digit.
pub open spec fn all_digits(s: Seq<char>) -> bool {
    forall|i: int| 0 <= i < s.len() ==> '0' <= #[trigger] s[i] <= '9'
}

/// `s` without one leading `+`.
pub open spec fn unsigned_digits(s: Seq<char>) -> Seq<char> {
    if s.len() > 0 && s[0] == '+' {
        s.drop_first()
    } else {
        s
    }
}

/// What `u32::from_str` gives: an optional `+` followed by at least one
/// digit, whose value fits in a `u32`.
pub open spec fn parsed_u32(s: Seq<char>) -> Option<u32> {
    let body = unsigned_digits(s);
    if body.len() > 0 && all_digits(body) && digits_value(body) <= u32::MAX {
        Some(digits_value(body) as u32)
    } else {
        None
    }
}

/// `s` read as an unsigned 32-bit decimal number.
pub fn parse_u32(s: &str) -> (r: Option<u32>)
    ensures
        r == parsed_u32(s@),
{
    let v = chars_of(s);
    let start: usize = if v.len() > 0 && v[0] == '+' {
        1
    } else {
        0
    };
    let ghost body = unsigned_digits(s@);
    assert(body =~= v@.skip(start as int));
    if start >= v.len() {
        return None;
    }
    let mut value: u64 = 0;
    let mut i = start;
    while i < v.len()
        invariant
            start <= i <= v.len(),
            v@ == s@,
            body == v@.skip(start as int),
            body == unsigned_digits(s@),
            all_digits(v@.subrange(start as int, i as int)),
            value == digits_value(v@.subrange(start as int, i as int)),
            value <= u32::MAX,
        decreases v.len() - i,
    {
        let c = v[i];
        if !('0' <= c && c <= '9') {
            assert(body[i - start] == c);
            assert(!all_digits(body));
            return None;
        }
        let d = (c as u32 - '0' as u32) as u64;
        assert(v@.subrange(start as int, i + 1).drop_last() =~= v@.subrange(start as int, i as int));
        let next = value * 10 + d;
        if next > u32::MAX as u64 {
            proof {
                assert(body.take(i + 1 - start) =~= v@.subrange(start as int, i + 1));
                if all_digits(body) {
                    lemma_digits_value_prefix(body, i + 1 - start);
                }
            }
            return None;
        }
        value = next;
        i = i + 1;
    }
    assert(v@.subrange(start as int, v.len() as int) =~= body);
    Some(value as u32)
}

/// The digit for `d` stands for `d`.
proof fn lemma_digit_value(d: nat)
    requires
        d < 10,
    ensures
        ((digit_char(d) as u32) - ('0' as u32)) as nat == d,
        '0' <= digit_char(d) <= '9',
{
}

/// The decimal numeral of `n` is a non-empty string of digits whose value is
/// `n`.
pub proof fn lemma_decimal_digits(n: nat)
    ensures
        decimal(n).len() > 0,
        all_digits(decimal(n)),
        digits_value(decimal(n)) == n,
    decreases n,
{
    if n < 10 {
        lemma_digit_value(n);
        let d = decimal(n);
        assert(d.drop_last() =~= Seq::<char>::empty());
        assert(digits_value(d.drop_last()) == 0);
        assert(d.last() == digit_char(n));
    } else {
        lemma_digit_value(n % 10);
        lemma_decimal_digits(n / 10);
        let d = decimal(n);
        assert(d.drop_last() =~= decimal(n / 10));
        assert(d.last() == digit_char(n % 10));
        assert forall|i: int| 0 <= i < d.len() implies '0' <= #[trigger] d[i] <= '9' by {
            if i < d.len() - 1 {
                assert(d[i] == decimal(n / 10)[i]);
            }
        }
        assert(n == (n / 10) * 10 + n % 10) by (nonlinear_arith);
        assert(digits_value(d) == digits_value(d.drop_last()) * 10 + ((d.last() as u32) - ('0' as u32)) as nat);
        assert(digits_value(d) == (n / 10) * 10 + n % 10);
    }
}

/// Reading back the decimal numeral of a number gives the number: what
/// `decimal_string` writes, `parse_u32` reads.
pub proof fn law_parse_reads_decimal(x: u32)
    ensures
        parsed_u32(decimal(x as nat)) == Some(x),
{
    lemma_decimal_digits(x as nat);
    assert('0' <= decimal(x as nat)[0] <= '9');
}

/// The value of a digit string bounds the value of each of its prefixes.
pub proof fn lemma_digits_value_prefix(s: Seq<char>, k: int)
    requires
        0 <= k <= s.len(),
        all_digits(s),
    ensures
        digits_value(s.take(k)) <= digits_value(s),
    decreases s.len() - k,
{
    if k < s.len() {
        lemma_digits_value_prefix(s, k + 1);
        assert(s.take(k + 1).drop_last() =~= s.take(k));
        assert('0' <= s[k] <= '9');
    } else {
        assert(s.take(k) =~= s);
    }
}

} // verus!
