//! Character sequences: the view of every string this crate handles is a
//! `Seq<char>`, and the executable code works on `Vec<char>`.

use vstd::prelude::*;

verus! {

/// Whether `c`, a character above the ASCII range, has the Unicode
/// `White_Space` property, as `char::is_whitespace` reports it.
pub uninterp spec fn wide_white_space(c: char) -> bool;

/// The Unicode lowercase form of a text that is not all ASCII, as
/// `str::to_lowercase` computes it.
pub uninterp spec fn wide_lowercased(s: Seq<char>) -> Seq<char>;

/// The Unicode uppercase form of a text that is not all ASCII, as
/// `str::to_uppercase` computes it.
pub uninterp spec fn wide_uppercased(s: Seq<char>) -> Seq<char>;

/// Whether `c` is in the ASCII range.
pub open spec fn is_ascii_char(c: char) -> bool {
    (c as u32) < 0x80
}

/// Whether every character of `s` is in the ASCII range.
pub open spec fn all_ascii(s: Seq<char>) -> bool {
    forall|i: int| 0 <= i < s.len() ==> is_ascii_char(#[trigger] s[i])
}

/// Whether `c` has the Unicode `White_Space` property. In the ASCII range
/// these are the blank and the five controls from the tabulator to the
/// carriage return; above it, what `wide_white_space` names.
pub open spec fn white_space(c: char) -> bool {
    if is_ascii_char(c) {
        c == ' ' || ('\u{9}' <= c && c <= '\u{d}')
    } else {
        wide_white_space(c)
    }
}

/// `c` with an ASCII capital letter replaced by its small letter.
pub open spec fn ascii_lower(c: char) -> char {
    if 'A' <= c && c <= 'Z' {
        ((c as u32) + 32) as char
    } else {
        c
    }
}

/// `c` with an ASCII small letter replaced by its capital letter.
pub open spec fn ascii_upper(c: char) -> char {
    if 'a' <= c && c <= 'z' {
        ((c as u32) - 32) as char
    } else {
        c
    }
}

/// The Unicode lowercase form of a text. A text that is all ASCII has its
/// capital letters replaced by small ones and is otherwise unchanged; for any
/// other text it is what `wide_lowercased` names.
pub open spec fn lowercased(s: Seq<char>) -> Seq<char> {
    if all_ascii(s) {
        Seq::new(s.len(), |i: int| ascii_lower(s[i]))
    } else {
        wide_lowercased(s)
    }
}

/// The Unicode uppercase form of a text. A text that is all ASCII has its
/// small letters replaced by capital ones and is otherwise unchanged; for any
/// other text it is what `wide_uppercased` names.
pub open spec fn uppercased(s: Seq<char>) -> Seq<char> {
    if all_ascii(s) {
        Seq::new(s.len(), |i: int| ascii_upper(s[i]))
    } else {
        wide_uppercased(s)
    }
}

/// Calls `char::is_whitespace`, which tells whether the character has the
/// Unicode `White_Space` property. Trusted: in the ASCII range the property
/// holds of U+0020 and of U+0009 to U+000D and of nothing else; above it the
/// answer is what `wide_white_space` names, a function of the character
/// alone.
#[verifier::external_body]
pub(crate) fn is_whitespace(c: char) -> (b: bool)
    ensures
        b == white_space(c),
        !is_ascii_char(c) ==> b == wide_white_space(c),
{
    c.is_whitespace()
}

/// Calls `str::to_lowercase`, which maps each character to its Unicode
/// lowercase form. Trusted: of the ASCII characters only the capital letters
/// have another lowercase form, their small letters, so a text that is all
/// ASCII comes back with just those replaced; for any other text the result
/// is what `wide_lowercased` names, a function of the text alone.
#[verifier::external_body]
pub(crate) fn to_lowercase(s: &str) -> (r: String)
    ensures
        r@ == lowercased(s@),
        !all_ascii(s@) ==> r@ == wide_lowercased(s@),
{
    s.to_lowercase()
}

/// Calls `str::to_uppercase`, which maps each character to its Unicode
/// uppercase form. Trusted: of the ASCII characters only the small letters
/// have another uppercase form, their capital letters, so a text that is all
/// ASCII comes back with just those replaced; for any other text the result
/// is what `wide_uppercased` names, a function of the text alone.
#[verifier::external_body]
pub(crate) fn to_uppercase(s: &str) -> (r: String)
    ensures
        r@ == uppercased(s@),
        !all_ascii(s@) ==> r@ == wide_uppercased(s@),
{
    s.to_uppercase()
}

/// `String::push` of std. Trusted: after the call the string is what it was
/// with the character at its end.
pub assume_specification[ String::push ](s: &mut String, c: char)
    ensures
        final(s)@ == old(s)@.push(c),
;

/// The characters of a string slice.
pub fn chars_of(s: &str) -> (v: Vec<char>)
    ensures
        v@ == s@,
{
    let mut v: Vec<char> = Vec::new();
    for c in it: s.chars()
        invariant
            it.seq() == s@,
            v@ == it.seq().take(it.index() as int),
    {
        v.push(c);
    }
    assert(v@ == s@);
    v
}

/// The string made of the characters `v[from..to]`.
pub fn string_of(v: &Vec<char>, from: usize, to: usize) -> (s: String)
    requires
        from <= to <= v.len(),
    ensures
        s@ == v@.subrange(from as int, to as int),
{
    let mut s = String::new();
    let mut i: usize = from;
    while i < to
        invariant
            from <= i <= to <= v.len(),
            s@ == v@.subrange(from as int, i as int),
        decreases to - i,
    {
        s.push(v[i]);
        i += 1;
        assert(v@.subrange(from as int, i as int) == v@.subrange(from as int, i - 1).push(
            v@[i - 1],
        ));
    }
    s
}

/// The whole of `v` as a string.
pub fn to_string(v: &Vec<char>) -> (s: String)
    ensures
        s@ == v@,
{
    let s = string_of(v, 0, v.len());
    assert(v@.subrange(0, v@.len() as int) == v@);
    s
}

/// A copy of `v[from..to]`.
pub fn slice_of(v: &Vec<char>, from: usize, to: usize) -> (r: Vec<char>)
    requires
        from <= to <= v.len(),
    ensures
        r@ == v@.subrange(from as int, to as int),
{
    let mut r: Vec<char> = Vec::new();
    let mut i: usize = from;
    while i < to
        invariant
            from <= i <= to <= v.len(),
            r@ == v@.subrange(from as int, i as int),
        decreases to - i,
    {
        r.push(v[i]);
        i += 1;
        assert(v@.subrange(from as int, i as int) == v@.subrange(from as int, i - 1).push(
            v@[i - 1],
        ));
    }
    r
}

/// `c` with an ASCII capital letter replaced by its small letter.
pub fn to_ascii_lower(c: char) -> (r: char)
    ensures
        r == ascii_lower(c),
{
    if 'A' <= c && c <= 'Z' {
        ((c as u8) + 32) as char
    } else {
        c
    }
}

/// Equality of two texts up to the case of ASCII letters.
pub open spec fn eq_ignore_case(a: Seq<char>, b: Seq<char>) -> bool {
    &&& a.len() == b.len()
    &&& forall|i: int| 0 <= i < a.len() ==> ascii_lower(#[trigger] a[i]) == ascii_lower(b[i])
}

/// Whether two texts are equal up to the case of ASCII letters.
pub fn eq_ignore_ascii_case(a: &Vec<char>, b: &Vec<char>) -> (r: bool)
    ensures
        r == eq_ignore_case(a@, b@),
{
    if a.len() != b.len() {
        return false;
    }
    let mut i: usize = 0;
    while i < a.len()
        invariant
            a.len() == b.len(),
            i <= a.len(),
            forall|j: int| 0 <= j < i ==> ascii_lower(#[trigger] a@[j]) == ascii_lower(b@[j]),
        decreases a.len() - i,
    {
        if to_ascii_lower(a[i]) != to_ascii_lower(b[i]) {
            return false;
        }
        i += 1;
    }
    true
}

/// Whether two strings hold the same text.
pub fn str_eq(a: &str, b: &str) -> (r: bool)
    ensures
        r == (a@ == b@),
{
    let x = chars_of(a);
    let y = chars_of(b);
    if x.len() != y.len() {
        return false;
    }
    let mut i: usize = 0;
    while i < x.len()
        invariant
            x@ == a@,
            y@ == b@,
            x.len() == y.len(),
            i <= x.len(),
            forall|j: int| 0 <= j < i ==> x@[j] == y@[j],
        decreases x.len() - i,
    {
        if x[i] != y[i] {
            assert(a@[i as int] != b@[i as int]);
            return false;
        }
        i += 1;
    }
    assert(x@ =~= y@);
    true
}

/// `pat` stands in `s` at index `i`.
pub open spec fn has_at(s: Seq<char>, pat: Seq<char>, i: int) -> bool {
    &&& 0 <= i
    &&& i + pat.len() <= s.len()
    &&& s.subrange(i, i + pat.len()) == pat
}

/// `pat` occurs somewhere in `s`.
pub open spec fn contains(s: Seq<char>, pat: Seq<char>) -> bool {
    exists|i: int| has_at(s, pat, i)
}

/// `pat` stands in `s` at index `i`, up to the case of ASCII letters.
pub open spec fn has_at_ignore_case(s: Seq<char>, pat: Seq<char>, i: int) -> bool {
    &&& 0 <= i
    &&& i + pat.len() <= s.len()
    &&& eq_ignore_case(s.subrange(i, i + pat.len()), pat)
}

/// `i` is the first index at which `pat` stands in `s`.
pub open spec fn first_at(s: Seq<char>, pat: Seq<char>, i: int) -> bool {
    &&& has_at(s, pat, i)
    &&& forall|j: int| 0 <= j < i ==> !has_at(s, pat, j)
}

/// Whether `pat` stands in `v` at index `i`.
pub fn matches_at(v: &Vec<char>, pat: &Vec<char>, i: usize) -> (r: bool)
    ensures
        r == has_at(v@, pat@, i as int),
{
    if pat.len() > v.len() || i > v.len() - pat.len() {
        return false;
    }
    let mut k: usize = 0;
    while k < pat.len()
        invariant
            i + pat.len() <= v.len(),
            k <= pat.len(),
            forall|j: int| 0 <= j < k ==> v@[i + j] == pat@[j],
        decreases pat.len() - k,
    {
        if v[i + k] != pat[k] {
            assert(v@.subrange(i as int, i + pat.len())[k as int] != pat@[k as int]);
            return false;
        }
        k += 1;
    }
    assert(v@.subrange(i as int, i + pat.len()) =~= pat@);
    true
}

/// Whether `pat` stands in `v` at index `i`, up to the case of ASCII letters.
pub fn matches_at_ignore_case(v: &Vec<char>, pat: &Vec<char>, i: usize) -> (r: bool)
    ensures
        r == has_at_ignore_case(v@, pat@, i as int),
{
    if pat.len() > v.len() || i > v.len() - pat.len() {
        return false;
    }
    let ghost window = v@.subrange(i as int, i + pat.len());
    let mut k: usize = 0;
    while k < pat.len()
        invariant
            i + pat.len() <= v.len(),
            k <= pat.len(),
            window == v@.subrange(i as int, i + pat.len()),
            forall|j: int| 0 <= j < k ==> ascii_lower(#[trigger] window[j]) == ascii_lower(pat@[j]),
        decreases pat.len() - k,
    {
        if to_ascii_lower(v[i + k]) != to_ascii_lower(pat[k]) {
            assert(ascii_lower(window[k as int]) != ascii_lower(pat@[k as int]));
            return false;
        }
        assert(window[k as int] == v@[i + k]);
        k += 1;
    }
    true
}

/// The first index at which `pat` stands in `v`, if there is one.
pub fn find(v: &Vec<char>, pat: &Vec<char>) -> (r: Option<usize>)
    ensures
        match r {
            Some(i) => first_at(v@, pat@, i as int),
            None => !contains(v@, pat@),
        },
{
    if pat.len() > v.len() {
        return None;
    }
    let last: usize = v.len() - pat.len();
    let mut i: usize = 0;
    while i < last
        invariant
            last == v.len() - pat.len(),
            i <= last,
            forall|j: int| 0 <= j < i ==> !has_at(v@, pat@, j),
        decreases last - i,
    {
        if matches_at(v, pat, i) {
            return Some(i);
        }
        i += 1;
    }
    if matches_at(v, pat, last) {
        Some(last)
    } else {
        None
    }
}

/// The index of the first occurrence of `pat` in `s`, where there is one.
pub open spec fn index_of(s: Seq<char>, pat: Seq<char>) -> int {
    choose|i: int| first_at(s, pat, i)
}

/// The index of the first occurrence of `pat` in `v`; `None` where `pat` does
/// not occur.
pub fn find_first(v: &Vec<char>, pat: &Vec<char>) -> (r: Option<usize>)
    ensures
        r is Some == contains(v@, pat@),
        r matches Some(i) ==> i == index_of(v@, pat@) && first_at(v@, pat@, i as int),
{
    let r = find(v, pat);
    proof {
        if let Some(i) = r {
            let j = index_of(v@, pat@);
            assert(first_at(v@, pat@, i as int));
            assert(first_at(v@, pat@, j));
            assert(j == i);
        }
    }
    r
}

/// Whether `pat` occurs in `v`.
pub fn contains_seq(v: &Vec<char>, pat: &Vec<char>) -> (r: bool)
    ensures
        r == contains(v@, pat@),
{
    find(v, pat).is_some()
}

/// A class of characters.
pub enum CharClass {
    /// The characters with the Unicode `White_Space` property.
    WhiteSpace,
    /// The ASCII digits.
    Digit,
    /// Every character but the given one.
    Except(char),
}

impl CharClass {
    /// Whether `c` belongs to the class.
    pub open spec fn has(self, c: char) -> bool {
        match self {
            CharClass::WhiteSpace => white_space(c),
            CharClass::Digit => '0' <= c && c <= '9',
            CharClass::Except(x) => c != x,
        }
    }
}

/// The length of the longest prefix of `s` whose characters are all in `k`.
pub open spec fn run(s: Seq<char>, k: CharClass) -> nat
    decreases s.len(),
{
    if s.len() == 0 || !k.has(s[0]) {
        0
    } else {
        1 + run(s.drop_first(), k)
    }
}

/// The length of the longest suffix of `s` whose characters are all in `k`.
pub open spec fn tail_run(s: Seq<char>, k: CharClass) -> nat
    decreases s.len(),
{
    if s.len() == 0 || !k.has(s.last()) {
        0
    } else {
        1 + tail_run(s.drop_last(), k)
    }
}

/// `n` is where the longest prefix of `s` within `k` ends.
pub open spec fn is_run(s: Seq<char>, k: CharClass, n: int) -> bool {
    &&& 0 <= n <= s.len()
    &&& forall|i: int| 0 <= i < n ==> k.has(#[trigger] s[i])
    &&& n < s.len() ==> !k.has(s[n])
}

/// `n` is the length of the longest suffix of `s` within `k`.
pub open spec fn is_tail_run(s: Seq<char>, k: CharClass, n: int) -> bool {
    &&& 0 <= n <= s.len()
    &&& forall|i: int| s.len() - n <= i < s.len() ==> k.has(#[trigger] s[i])
    &&& n < s.len() ==> !k.has(s[s.len() - n - 1])
}

/// The run of `k` at the front of `s` ends where `run` says.
pub proof fn lemma_run(s: Seq<char>, k: CharClass)
    ensures
        is_run(s, k, run(s, k) as int),
    decreases s.len(),
{
    if s.len() == 0 || !k.has(s[0]) {
    } else {
        let t = s.drop_first();
        lemma_run(t, k);
        let n = run(t, k) as int;
        assert forall|i: int| 0 <= i < n + 1 implies k.has(#[trigger] s[i]) by {
            if i > 0 {
                assert(s[i] == t[i - 1]);
            }
        }
        if n + 1 < s.len() {
            assert(s[n + 1] == t[n]);
        }
    }
}

/// Only one index can be where the run of `k` at the front of `s` ends.
pub proof fn lemma_run_unique(s: Seq<char>, k: CharClass, n: int)
    requires
        is_run(s, k, n),
    ensures
        run(s, k) == n,
    decreases s.len(),
{
    if s.len() == 0 || !k.has(s[0]) {
        if n > 0 {
            assert(k.has(s[0]));
        }
    } else {
        let t = s.drop_first();
        assert(n > 0);
        assert forall|i: int| 0 <= i < n - 1 implies k.has(#[trigger] t[i]) by {
            assert(t[i] == s[i + 1]);
        }
        if n - 1 < t.len() {
            assert(t[n - 1] == s[n]);
        }
        lemma_run_unique(t, k, n - 1);
    }
}

/// The run of `k` at the back of `s` is as long as `tail_run` says.
pub proof fn lemma_tail_run(s: Seq<char>, k: CharClass)
    ensures
        is_tail_run(s, k, tail_run(s, k) as int),
    decreases s.len(),
{
    if s.len() == 0 || !k.has(s.last()) {
    } else {
        let t = s.drop_last();
        lemma_tail_run(t, k);
        let n = tail_run(t, k) as int;
        assert forall|i: int| s.len() - (n + 1) <= i < s.len() implies k.has(#[trigger] s[i]) by {
            if i < s.len() - 1 {
                assert(s[i] == t[i]);
            }
        }
        if n + 1 < s.len() {
            assert(s[s.len() - (n + 1) - 1] == t[t.len() - n - 1]);
        }
    }
}

/// Only one number can be the length of the run of `k` at the back of `s`.
pub proof fn lemma_tail_run_unique(s: Seq<char>, k: CharClass, n: int)
    requires
        is_tail_run(s, k, n),
    ensures
        tail_run(s, k) == n,
    decreases s.len(),
{
    if s.len() == 0 || !k.has(s.last()) {
        if n > 0 {
            assert(k.has(s[s.len() - 1]));
        }
    } else {
        let t = s.drop_last();
        assert(n > 0);
        assert forall|i: int| t.len() - (n - 1) <= i < t.len() implies k.has(#[trigger] t[i]) by {
            assert(t[i] == s[i]);
        }
        if n - 1 < t.len() {
            assert(t[t.len() - (n - 1) - 1] == s[s.len() - n - 1]);
        }
        lemma_tail_run_unique(t, k, n - 1);
    }
}

/// The index of the first `c` in `s`, or the length of `s` where there is none.
pub open spec fn position(s: Seq<char>, c: char) -> nat {
    run(s, CharClass::Except(c))
}

/// Where `position` points there is the first `c` of `s`, if `s` holds one.
pub proof fn lemma_position(s: Seq<char>, c: char)
    ensures
        position(s, c) <= s.len(),
        position(s, c) < s.len() <==> s.contains(c),
        position(s, c) < s.len() ==> s[position(s, c) as int] == c,
        forall|i: int| 0 <= i < position(s, c) ==> s[i] != c,
{
    let k = CharClass::Except(c);
    lemma_run(s, k);
    let n = run(s, k) as int;
    assert forall|i: int| 0 <= i < n implies s[i] != c by {
        assert(k.has(s[i]));
    }
    if n < s.len() {
        assert(!k.has(s[n]));
        assert(s[n] == c);
    } else {
        if s.contains(c) {
            let i = choose|i: int| 0 <= i < s.len() && s[i] == c;
            assert(k.has(s[i]));
        }
    }
}

/// The index of the first `c` in `v[from..]`, counted from `from`; the length of
/// that tail where it holds no `c`.
pub fn find_char(v: &Vec<char>, from: usize, c: char) -> (n: usize)
    requires
        from <= v.len(),
    ensures
        n == position(v@.skip(from as int), c),
        from + n <= v.len(),
{
    let ghost s = v@.skip(from as int);
    let ghost k = CharClass::Except(c);
    let mut i: usize = from;
    while i < v.len() && v[i] != c
        invariant
            from <= i <= v.len(),
            s == v@.skip(from as int),
            k == CharClass::Except(c),
            forall|j: int| 0 <= j < i - from ==> k.has(#[trigger] s[j]),
        decreases v.len() - i,
    {
        assert(s[i - from] == v@[i as int]);
        i += 1;
    }
    proof {
        if i < v.len() {
            assert(s[i - from] == v@[i as int]);
        }
        lemma_run_unique(s, k, i - from);
    }
    i - from
}

/// Whether `c` occurs in `v`.
pub fn contains_char(v: &Vec<char>, c: char) -> (r: bool)
    ensures
        r == v@.contains(c),
{
    let n = find_char(v, 0, c);
    proof {
        assert(v@.skip(0) == v@);
        lemma_position(v@, c);
    }
    n < v.len()
}

/// The number of leading white-space characters.
pub open spec fn lead_ws(s: Seq<char>) -> nat {
    run(s, CharClass::WhiteSpace)
}

/// The number of trailing white-space characters.
pub open spec fn trail_ws(s: Seq<char>) -> nat {
    tail_run(s, CharClass::WhiteSpace)
}

/// `s` without its leading white space.
pub open spec fn trim_start(s: Seq<char>) -> Seq<char> {
    s.skip(lead_ws(s) as int)
}

/// `s` without its trailing white space.
pub open spec fn trim_end(s: Seq<char>) -> Seq<char> {
    s.take(s.len() - trail_ws(s))
}

/// `s` without its leading and trailing white space.
pub open spec fn trim(s: Seq<char>) -> Seq<char> {
    trim_end(trim_start(s))
}

/// `s` neither begins nor ends with white space.
pub open spec fn is_trimmed(s: Seq<char>) -> bool {
    s.len() > 0 ==> !white_space(s[0]) && !white_space(s.last())
}

/// The index at which the leading white space of `v[from..to]` ends.
pub fn skip_ws(v: &Vec<char>, from: usize, to: usize) -> (i: usize)
    requires
        from <= to <= v.len(),
    ensures
        from <= i <= to,
        i - from == lead_ws(v@.subrange(from as int, to as int)),
{
    let ghost s = v@.subrange(from as int, to as int);
    let ghost k = CharClass::WhiteSpace;
    let mut i: usize = from;
    while i < to && is_whitespace(v[i])
        invariant
            from <= i <= to <= v.len(),
            s == v@.subrange(from as int, to as int),
            k == CharClass::WhiteSpace,
            forall|j: int| 0 <= j < i - from ==> k.has(#[trigger] s[j]),
        decreases to - i,
    {
        assert(s[i - from] == v@[i as int]);
        i += 1;
    }
    proof {
        if i < to {
            assert(s[i - from] == v@[i as int]);
        }
        lemma_run_unique(s, k, i - from);
    }
    i
}

/// The index at which the trailing white space of `v[from..to]` begins.
pub fn skip_ws_back(v: &Vec<char>, from: usize, to: usize) -> (i: usize)
    requires
        from <= to <= v.len(),
    ensures
        from <= i <= to,
        to - i == trail_ws(v@.subrange(from as int, to as int)),
{
    let ghost s = v@.subrange(from as int, to as int);
    let ghost k = CharClass::WhiteSpace;
    let mut i: usize = to;
    while i > from && is_whitespace(v[i - 1])
        invariant
            from <= i <= to <= v.len(),
            s == v@.subrange(from as int, to as int),
            k == CharClass::WhiteSpace,
            forall|j: int| i - from <= j < s.len() ==> k.has(#[trigger] s[j]),
        decreases i,
    {
        assert(s[i - 1 - from] == v@[i - 1]);
        i -= 1;
    }
    proof {
        if i > from {
            assert(s[i - 1 - from] == v@[i - 1]);
        }
        lemma_tail_run_unique(s, k, to - i);
    }
    i
}

/// The bounds of `v[from..to]` without its leading and trailing white space.
pub fn trim_bounds(v: &Vec<char>, from: usize, to: usize) -> (r: (usize, usize))
    requires
        from <= to <= v.len(),
    ensures
        from <= r.0 <= r.1 <= to,
        v@.subrange(r.0 as int, r.1 as int) == trim(v@.subrange(from as int, to as int)),
{
    let a = skip_ws(v, from, to);
    let b = skip_ws_back(v, a, to);
    proof {
        let s = v@.subrange(from as int, to as int);
        assert(trim_start(s) == v@.subrange(a as int, to as int));
        assert(trim_end(v@.subrange(a as int, to as int)) == v@.subrange(a as int, b as int));
    }
    (a, b)
}

/// Trimming leaves a text that neither begins nor ends with white space, and
/// changes no text that is such.
pub proof fn lemma_trim(s: Seq<char>)
    ensures
        is_trimmed(trim(s)),
        is_trimmed(s) ==> trim(s) == s,
        trim(s).len() <= s.len(),
        trim(s) == s ==> is_trimmed(s),
{
    let k = CharClass::WhiteSpace;
    lemma_run(s, k);
    let a = lead_ws(s) as int;
    let t = trim_start(s);
    lemma_tail_run(t, k);
    let b = trail_ws(t) as int;
    let r = trim(s);
    assert(r == s.subrange(a, s.len() - b));
    if r.len() > 0 {
        assert(r[0] == s[a]);
        assert(r.last() == t[t.len() - b - 1]);
    }
    if is_trimmed(s) {
        if s.len() > 0 {
            assert(a == 0) by {
                if a > 0 {
                    assert(k.has(s[0]));
                }
            }
            assert(t == s);
            assert(b == 0) by {
                if b > 0 {
                    assert(k.has(t[t.len() - 1]));
                }
            }
        }
        assert(r == s);
    }
}

} // verus!
