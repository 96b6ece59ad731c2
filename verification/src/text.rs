//! Normalisation of the raw strings taken from a page.

use crate::chars::{
    chars_of, contains, contains_char, contains_seq, eq_ignore_ascii_case, eq_ignore_case,
    find_char, has_at, is_trimmed, lemma_position, lemma_run, lemma_trim, position, skip_ws,
    slice_of, string_of, to_string, trim, trim_bounds, trim_start, CharClass,
};
use crate::pattern::{find_match, leftmost_match, opt_view};
use vstd::prelude::*;
use vstd::string::*;

verus! {

/// What follows the first colon of `s`, up to the next line feed, without
/// leading white space; empty where `s` holds no colon.
pub open spec fn after_colon(s: Seq<char>) -> Seq<char> {
    if !s.contains(':') {
        Seq::empty()
    } else {
        let rest = s.skip(position(s, ':') as int + 1);
        trim_start(rest.take(position(rest, '\n') as int))
    }
}

/// What follows the first occurrence of `c` in `s`.
pub open spec fn after_first(s: Seq<char>, c: char) -> Seq<char> {
    s.skip(position(s, c) as int + 1)
}

/// A value that stands for "nothing": an unresolved template placeholder, or
/// the word "none" in any case.
pub open spec fn suppressed(t: Seq<char>) -> bool {
    contains(t, "{$"@) || eq_ignore_case(t, "none"@)
}

/// A value that holds a "not applicable" marker.
pub open spec fn not_applicable(t: Seq<char>) -> bool {
    contains(t, "n/a"@) || contains(t, "N/A"@)
}

/// A value from which one of the two stripping rules takes a part.
pub open spec fn stripped(t: Seq<char>) -> bool {
    !suppressed(t) && (t.contains(':') || (t.contains('/') && !not_applicable(t)))
}

/// The canonical form of a raw field value. The rules apply in this order to
/// the value without its surrounding white space: a suppressed value becomes
/// empty; a value with a colon becomes what follows the colon on that line; a
/// value with a slash and no "not applicable" marker becomes what follows the
/// slash; any other value stays.
pub open spec fn clean(s: Seq<char>) -> Seq<char> {
    let t = trim(s);
    if suppressed(t) {
        Seq::empty()
    } else if t.contains(':') {
        after_colon(t)
    } else if t.contains('/') && !not_applicable(t) {
        after_first(t, '/')
    } else {
        t
    }
}

/// A value that cleaning leaves as it is: no white space around it, and no
/// rule of `clean` applies.
pub open spec fn is_settled(s: Seq<char>) -> bool {
    is_trimmed(s) && !suppressed(s) && !stripped(s)
}

/// The containment classes that a record may carry.
pub open spec fn valid_containment(s: Seq<char>) -> bool {
    ||| eq_ignore_case(s, "safe"@)
    ||| eq_ignore_case(s, "euclid"@)
    ||| eq_ignore_case(s, "keter"@)
    ||| eq_ignore_case(s, "neutralized"@)
    ||| eq_ignore_case(s, "pending"@)
    ||| eq_ignore_case(s, "explained"@)
    ||| eq_ignore_case(s, "esoteric"@)
}

/// The clearance level named by a digit found in `text`: "LEVEL " and the
/// digit, or `text` itself where none was found.
pub open spec fn level_of(text: Seq<char>, digit: Option<Seq<char>>) -> Seq<char> {
    match digit {
        Some(d) => "LEVEL "@ + d,
        None => text,
    }
}

/// A decimal digit.
pub const DIGIT: &'static str = "\\d";

/// The clearance level that a label stands for: "LEVEL " and the first
/// decimal digit in it, or the label itself where it holds no digit.
pub open spec fn converted(text: Seq<char>) -> Seq<char> {
    level_of(text, leftmost_match(DIGIT@, text))
}

fn eq_word(v: &Vec<char>, word: &str) -> (r: bool)
    ensures
        r == eq_ignore_case(v@, word@),
{
    let w = chars_of(word);
    eq_ignore_ascii_case(v, &w)
}

fn has_text(v: &Vec<char>, pat: &str) -> (r: bool)
    ensures
        r == contains(v@, pat@),
{
    let p = chars_of(pat);
    contains_seq(v, &p)
}

/// Whether `class` is a containment class of the vocabulary, in any case.
pub fn is_valid_containment_class(class: &str) -> (r: bool)
    ensures
        r == valid_containment(class@),
{
    let v = chars_of(class);
    eq_word(&v, "safe") || eq_word(&v, "euclid") || eq_word(&v, "keter") || eq_word(
        &v,
        "neutralized",
    ) || eq_word(&v, "pending") || eq_word(&v, "explained") || eq_word(&v, "esoteric")
}

/// `after_colon` on the characters `v[from..to]`.
pub fn after_colon_of(v: &Vec<char>, from: usize, to: usize) -> (r: String)
    requires
        from <= to <= v.len(),
    ensures
        r@ == after_colon(v@.subrange(from as int, to as int)),
{
    let ghost s = v@.subrange(from as int, to as int);
    let w = slice_of(v, from, to);
    let colon = find_char(&w, 0, ':');
    proof {
        assert(w@.skip(0) == w@);
        lemma_position(s, ':');
    }
    if colon >= w.len() {
        return String::new();
    }
    let start = colon + 1;
    let line = find_char(&w, start, '\n');
    let ghost rest = s.skip(start as int);
    let end = start + line;
    let begin = skip_ws(&w, start, end);
    proof {
        assert(rest.take(line as int) == w@.subrange(start as int, end as int));
        assert(w@.subrange(start as int, end as int).skip(begin - start) == w@.subrange(
            begin as int,
            end as int,
        ));
    }
    string_of(&w, begin, end)
}

/// What follows the first colon of `text`, up to the next line feed, without
/// leading white space.
pub fn extract_string_after_colon(text: &str) -> (r: String)
    ensures
        r@ == after_colon(text@),
{
    let v = chars_of(text);
    assert(v@.subrange(0, v@.len() as int) == v@);
    after_colon_of(&v, 0, v.len())
}

/// The canonical form of a raw field value.
pub fn clean_text(text: &str) -> (r: String)
    ensures
        r@ == clean(text@),
{
    let v = chars_of(text);
    let (a, b) = trim_bounds(&v, 0, v.len());
    assert(v@.subrange(0, v@.len() as int) == v@);
    let t = slice_of(&v, a, b);
    assert(t@ == trim(text@));
    assert(t@.subrange(0, t@.len() as int) == t@);
    if has_text(&t, "{$") || eq_word(&t, "none") {
        return String::new();
    }
    if contains_char(&t, ':') {
        return after_colon_of(&t, 0, t.len());
    }
    if !(has_text(&t, "n/a") || has_text(&t, "N/A")) && contains_char(&t, '/') {
        let slash = find_char(&t, 0, '/');
        proof {
            assert(t@.skip(0) == t@);
            lemma_position(t@, '/');
            assert(t@.skip(slash + 1) == t@.subrange(slash + 1, t@.len() as int));
        }
        string_of(&t, slash + 1, t.len())
    } else {
        to_string(&t)
    }
}

/// The clearance level for a digit already found in `text`.
pub fn level_from_match(text: &str, digit: Option<String>) -> (r: String)
    ensures
        r@ == level_of(text@, opt_view(digit)),
{
    match digit {
        Some(d) => String::from_str("LEVEL ").concat(d.as_str()),
        None => String::from_str(text),
    }
}

/// Turns a clearance label into "LEVEL " and the first decimal digit that
/// the label holds; a label without a digit stays as it is.
pub fn clearance_level_conversion(text: &str) -> (r: String)
    ensures
        r@ == converted(text@),
{
    let digit = find_match(DIGIT, text);
    level_from_match(text, digit)
}

/// A value is left alone by `clean` exactly when it is settled.
pub proof fn lemma_clean_fixed_point(s: Seq<char>)
    ensures
        clean(s) == s <==> is_settled(s),
{
    reveal_strlit("{$");
    reveal_strlit("none");
    lemma_trim(s);
    let t = trim(s);
    if is_settled(s) {
        assert(t == s);
    }
    if clean(s) == s {
        if suppressed(t) {
            assert(s.len() == 0);
            assert(t.len() == 0);
            if contains(t, "{$"@) {
                let i = choose|i: int| has_at(t, "{$"@, i);
                assert(false);
            }
            assert(false);
        } else if t.contains(':') {
            lemma_after_colon_shorter(t);
        } else if t.contains('/') && !not_applicable(t) {
            lemma_position(t, '/');
        } else {
            assert(t == s);
        }
    }
}

/// What `after_colon` takes from a text with a colon is shorter than the text.
pub proof fn lemma_after_colon_shorter(s: Seq<char>)
    requires
        s.contains(':'),
    ensures
        after_colon(s).len() < s.len(),
{
    lemma_position(s, ':');
    let rest = s.skip(position(s, ':') as int + 1);
    lemma_position(rest, '\n');
    let line = rest.take(position(rest, '\n') as int);
    lemma_run(line, CharClass::WhiteSpace);
}

/// Cleaning a second time changes nothing, wherever the first cleaning left a
/// settled value: one without white space around it to which no rule
/// applies.
pub proof fn lemma_clean_idempotent(x: Seq<char>)
    requires
        is_settled(clean(x)),
    ensures
        clean(clean(x)) == clean(x),
{
    lemma_clean_fixed_point(clean(x));
}

/// Where the first cleaning left a value that is not settled, cleaning a
/// second time changes it: the text "a:b:c" becomes "b:c" and then "c".
pub proof fn lemma_clean_not_idempotent(x: Seq<char>)
    requires
        !is_settled(clean(x)),
    ensures
        clean(clean(x)) != clean(x),
{
    lemma_clean_fixed_point(clean(x));
}

/// Cleaning is idempotent on every input from which no stripping rule takes
/// a part: a suppressed value, and a value with neither a colon nor a slash
/// that counts.
pub proof fn lemma_clean_idempotent_unless_stripped(x: Seq<char>)
    requires
        !stripped(trim(x)),
    ensures
        clean(clean(x)) == clean(x),
{
    reveal_strlit("{$");
    reveal_strlit("none");
    lemma_trim(x);
    let t = trim(x);
    let r = clean(x);
    if suppressed(t) {
        assert(r.len() == 0);
        if contains(r, "{$"@) {
            let i = choose|i: int| has_at(r, "{$"@, i);
            assert(false);
        }
        assert(!r.contains(':'));
        assert(!r.contains('/'));
        assert(is_settled(r));
    } else {
        assert(r == t);
        assert(is_settled(r));
    }
    lemma_clean_fixed_point(r);
}

} // verus!
