//! The order of a dataset: by the number in a field where the field holds an
//! identifier, by the field's text where it does not.

use crate::chars::{
    chars_of, has_at_ignore_case, lemma_run_unique, matches_at_ignore_case, run, slice_of,
    CharClass,
};
use crate::ident::{identifier, is_digit, lemma_numeral, numeral, parse_number, parse_u16};
use std::borrow::Cow;
use vstd::prelude::*;

verus! {

/// A record whose fields can be read by name.
pub trait SortableField {
    /// Whether the record has a field called `field`.
    spec fn has_field(&self, field: Seq<char>) -> bool;

    /// The text of the field called `field`.
    spec fn field_value(&self, field: Seq<char>) -> Seq<char>;

    /// Whether the record has a field called `field`.
    fn knows_field(&self, field: &str) -> (b: bool)
        ensures
            b == self.has_field(field@),
    ;

    /// The text of the field called `field`, which the record has.
    fn get_field(&self, field: &str) -> (r: Cow<'_, str>)
        requires
            self.has_field(field@),
        ensures
            r@ == self.field_value(field@),
    ;
}

/// `slice::swap` of std. Trusted: after the call the elements at the two
/// indices have changed places and every other element is where it was. The
/// indices are within the slice: the call panics on one that is not.
pub assume_specification<T>[ <[T]>::swap ](s: &mut [T], a: usize, b: usize)
    requires
        a < old(s)@.len(),
        b < old(s)@.len(),
    ensures
        final(s)@ == old(s)@.update(a as int, old(s)@[b as int]).update(b as int, old(s)@[a as int]),
;

/// The number of an identifier: where `s` begins with "SCP-" in any case, the
/// number that the digits after it denote, if there are digits and the number
/// fits in 16 bits.
pub open spec fn numeric_key(s: Seq<char>) -> Option<u16> {
    if has_at_ignore_case(s, "SCP-"@, 0) {
        let rest = s.skip(4);
        parse_u16(rest.take(run(rest, CharClass::Digit) as int))
    } else {
        None
    }
}

/// `a` comes before `b` in the order of the dictionary, character by character.
pub open spec fn lex_lt(a: Seq<char>, b: Seq<char>) -> bool
    decreases a.len(),
{
    if b.len() == 0 {
        false
    } else if a.len() == 0 {
        true
    } else if a[0] == b[0] {
        lex_lt(a.drop_first(), b.drop_first())
    } else {
        a[0] < b[0]
    }
}

/// What the order reads of a field value: the number of the identifier that
/// it holds, if it holds one, and its text.
pub open spec fn key_of(value: Seq<char>) -> (Option<u16>, Seq<char>) {
    (numeric_key(value), value)
}

/// The key `a` sorts strictly before the key `b`: numbers before texts,
/// numbers by their size, texts as in a dictionary.
pub open spec fn key_precedes(a: (Option<u16>, Seq<char>), b: (Option<u16>, Seq<char>)) -> bool {
    match (a.0, b.0) {
        (Some(x), Some(y)) => x < y,
        (Some(_), None) => true,
        (None, Some(_)) => false,
        (None, None) => lex_lt(a.1, b.1),
    }
}

/// The field value `a` sorts strictly before the field value `b`.
pub open spec fn precedes(a: Seq<char>, b: Seq<char>) -> bool {
    key_precedes(key_of(a), key_of(b))
}

/// In a sorted arrangement of `old` by `field`, the element that stood at
/// index `a` comes before the one that stood at index `b`: its value sorts
/// strictly before the other, or the two sort alike and `a` is the smaller
/// index.
pub open spec fn goes_before<E: SortableField>(
    old: Seq<E>,
    field: Seq<char>,
    a: int,
    b: int,
) -> bool {
    let x = old[a].field_value(field);
    let y = old[b].field_value(field);
    precedes(x, y) || (!precedes(y, x) && a < b)
}

/// `new` holds the elements of `old` in sorted order, `perm[i]` being the
/// index in `old` of the element at index `i` of `new`.
pub open spec fn arranges<E: SortableField>(
    old: Seq<E>,
    new: Seq<E>,
    field: Seq<char>,
    perm: Seq<int>,
) -> bool {
    &&& perm.len() == old.len()
    &&& new.len() == old.len()
    &&& forall|i: int|
        0 <= i < perm.len() ==> 0 <= #[trigger] perm[i] < old.len() && new[i] == old[perm[i]]
    &&& forall|i: int, j: int|
        0 <= i < j < perm.len() ==> perm[i] != perm[j] && goes_before(old, field, perm[i], perm[j])
}

/// `new` is `old` sorted by `field`, elements that sort alike keeping their
/// order.
pub open spec fn sorted_by<E: SortableField>(old: Seq<E>, new: Seq<E>, field: Seq<char>) -> bool {
    exists|perm: Seq<int>| arranges(old, new, field, perm)
}

/// Every element of `s` has the field `field`.
pub open spec fn all_have_field<E: SortableField>(s: Seq<E>, field: Seq<char>) -> bool {
    forall|i: int| 0 <= i < s.len() ==> (#[trigger] s[i]).has_field(field)
}

/// A text that comes before `a` comes before whatever `a` does not follow.
pub proof fn lemma_lex(x: Seq<char>, a: Seq<char>, b: Seq<char>)
    requires
        lex_lt(x, a),
        !lex_lt(b, a),
    ensures
        lex_lt(x, b),
    decreases x.len(),
{
    if x.len() > 0 && b.len() > 0 && x[0] == a[0] && a[0] == b[0] {
        lemma_lex(x.drop_first(), a.drop_first(), b.drop_first());
    }
}

/// Of two texts at most one comes before the other.
pub proof fn lemma_lex_one_way(a: Seq<char>, b: Seq<char>)
    requires
        lex_lt(a, b),
    ensures
        !lex_lt(b, a),
    decreases a.len(),
{
    if a.len() > 0 && b.len() > 0 && a[0] == b[0] {
        lemma_lex_one_way(a.drop_first(), b.drop_first());
    }
}

/// Of two values at most one sorts before the other.
pub proof fn lemma_precedes_one_way(a: Seq<char>, b: Seq<char>)
    requires
        precedes(a, b),
    ensures
        !precedes(b, a),
{
    if numeric_key(a) is None && numeric_key(b) is None {
        lemma_lex_one_way(a, b);
    }
}

/// A value that sorts before `a` sorts before whatever `a` does not follow.
pub proof fn lemma_precedes(x: Seq<char>, a: Seq<char>, b: Seq<char>)
    requires
        precedes(x, a),
        !precedes(b, a),
    ensures
        precedes(x, b),
{
    if numeric_key(x) is None && numeric_key(a) is None && numeric_key(b) is None {
        lemma_lex(x, a, b);
    }
}

/// The number of an entry is read back from its identifier.
pub proof fn lemma_identifier_key(n: u16)
    ensures
        numeric_key(identifier(n as nat)) == Some(n),
{
    reveal_strlit("SCP-");
    let prefix = "SCP-"@;
    let s = identifier(n as nat);
    lemma_numeral(n as nat);
    assert(s.subrange(0, 4) == prefix);
    let rest = s.skip(4);
    assert(rest == numeral(n as nat));
    assert forall|i: int| 0 <= i < rest.len() implies CharClass::Digit.has(#[trigger] rest[i]) by {
        assert(is_digit(rest[i]));
    }
    lemma_run_unique(rest, CharClass::Digit, rest.len() as int);
    assert(rest.take(rest.len() as int) == rest);
}

/// A sorted arrangement holds what the input held, and in it no element
/// sorts strictly before one that stands ahead of it.
pub proof fn lemma_sorted_in_order<E: SortableField>(old: Seq<E>, new: Seq<E>, field: Seq<char>)
    requires
        sorted_by(old, new, field),
    ensures
        new.len() == old.len(),
        forall|i: int| 0 <= i < new.len() ==> old.contains(#[trigger] new[i]),
        forall|i: int, j: int|
            0 <= i < j < new.len() ==> !precedes(
                (#[trigger] new[j]).field_value(field),
                (#[trigger] new[i]).field_value(field),
            ),
{
    let perm = choose|perm: Seq<int>| arranges(old, new, field, perm);
    assert forall|i: int| 0 <= i < new.len() implies old.contains(#[trigger] new[i]) by {
        assert(new[i] == old[perm[i]]);
    }
    assert forall|i: int, j: int| 0 <= i < j < new.len() implies !precedes(
        (#[trigger] new[j]).field_value(field),
        (#[trigger] new[i]).field_value(field),
    ) by {
        assert(new[i] == old[perm[i]] && new[j] == old[perm[j]]);
        assert(goes_before(old, field, perm[i], perm[j]));
        let x = new[i].field_value(field);
        let y = new[j].field_value(field);
        if precedes(x, y) {
            lemma_precedes_one_way(x, y);
        }
    }
}

/// The number of the identifier that `s` begins with.
pub fn extract_scp_number(s: &str) -> (r: Option<u16>)
    ensures
        r == numeric_key(s@),
{
    let v = chars_of(s);
    number_after_prefix(&v)
}

fn number_after_prefix(v: &Vec<char>) -> (r: Option<u16>)
    ensures
        r == numeric_key(v@),
{
    let prefix = chars_of("SCP-");
    proof {
        reveal_strlit("SCP-");
    }
    if !matches_at_ignore_case(v, &prefix, 0) {
        return None;
    }
    let ghost rest = v@.skip(4);
    let mut end: usize = 4;
    while end < v.len() && '0' <= v[end] && v[end] <= '9'
        invariant
            4 <= end <= v.len(),
            rest == v@.skip(4),
            forall|j: int| 0 <= j < end - 4 ==> CharClass::Digit.has(#[trigger] rest[j]),
        decreases v.len() - end,
    {
        assert(rest[end - 4] == v@[end as int]);
        end += 1;
    }
    proof {
        if end < v.len() {
            assert(rest[end - 4] == v@[end as int]);
        }
        lemma_run_unique(rest, CharClass::Digit, end - 4);
        assert(rest.take(end - 4) == v@.subrange(4, end as int));
    }
    let digits = slice_of(v, 4, end);
    parse_number(&digits)
}

/// The key of one field value.
#[derive(Clone, Debug, PartialEq, Eq)]
pub struct SortKey {
    pub number: Option<u16>,
    pub text: Vec<char>,
}

impl View for SortKey {
    type V = (Option<u16>, Seq<char>);

    open spec fn view(&self) -> (Option<u16>, Seq<char>) {
        (self.number, self.text@)
    }
}

impl SortKey {
    /// The key of the field value `value`.
    pub fn new(value: &str) -> (k: SortKey)
        ensures
            k@ == key_of(value@),
    {
        let text = chars_of(value);
        let number = number_after_prefix(&text);
        SortKey { number, text }
    }

    /// Whether `self` sorts strictly before `other`.
    pub fn sorts_before(&self, other: &SortKey) -> (r: bool)
        ensures
            r == key_precedes(self@, other@),
    {
        match (self.number, other.number) {
            (Some(x), Some(y)) => x < y,
            (Some(_), None) => true,
            (None, Some(_)) => false,
            (None, None) => lex_less(&self.text, &other.text),
        }
    }
}

/// Whether `a` comes before `b` in the order of the dictionary.
pub fn lex_less(a: &Vec<char>, b: &Vec<char>) -> (r: bool)
    ensures
        r == lex_lt(a@, b@),
{
    let mut i: usize = 0;
    assert(a@.skip(0) == a@ && b@.skip(0) == b@);
    loop
        invariant
            i <= a.len(),
            i <= b.len(),
            lex_lt(a@, b@) == lex_lt(a@.skip(i as int), b@.skip(i as int)),
        decreases a.len() - i,
    {
        let ghost x = a@.skip(i as int);
        let ghost y = b@.skip(i as int);
        if i == b.len() {
            return false;
        }
        if i == a.len() {
            return true;
        }
        assert(x[0] == a@[i as int] && y[0] == b@[i as int]);
        if a[i] != b[i] {
            return a[i] < b[i];
        }
        assert(x.drop_first() == a@.skip(i + 1));
        assert(y.drop_first() == b@.skip(i + 1));
        i += 1;
    }
}

/// The keys of all `entries` for the field `sort_field`.
fn keys_of<E: SortableField>(entries: &[E], sort_field: &str) -> (keys: Vec<SortKey>)
    requires
        all_have_field(entries@, sort_field@),
    ensures
        keys.len() == entries.len(),
        forall|i: int|
            0 <= i < keys.len() ==> (#[trigger] keys@[i])@ == key_of(entries@[i].field_value(sort_field@)),
{
    let mut keys: Vec<SortKey> = Vec::new();
    let mut i: usize = 0;
    while i < entries.len()
        invariant
            i <= entries.len(),
            keys.len() == i,
            all_have_field(entries@, sort_field@),
            forall|k: int|
                0 <= k < i ==> (#[trigger] keys@[k])@ == key_of(entries@[k].field_value(sort_field@)),
        decreases entries.len() - i,
    {
        let value = entries[i].get_field(sort_field);
        let key = match &value {
            Cow::Borrowed(b) => SortKey::new(b),
            Cow::Owned(o) => SortKey::new(o.as_str()),
        };
        keys.push(key);
        i += 1;
    }
    keys
}

/// Sorts `entries` by the field `sort_field`: values that hold an identifier
/// come first, by number; the others follow, by text. Entries that sort alike
/// keep their order.
pub fn sort<E: SortableField>(entries: &mut [E], sort_field: &str)
    requires
        all_have_field(old(entries)@, sort_field@),
    ensures
        sorted_by(old(entries)@, final(entries)@, sort_field@),
{
    let ghost field = sort_field@;
    let ghost start = entries@;
    let n = entries.len();
    let mut keys = keys_of(entries, sort_field);
    let ghost mut perm: Seq<int> = Seq::new(n as nat, |i: int| i);
    let mut i: usize = 0;
    while i < n
        invariant
            i <= n,
            n == start.len(),
            entries.len() == n,
            keys.len() == n,
            perm.len() == n,
            forall|k: int|
                0 <= k < n ==> 0 <= #[trigger] perm[k] < n && entries@[k] == start[perm[k]],
            forall|k: int|
                0 <= k < n ==> (#[trigger] keys@[k])@ == key_of(start[perm[k]].field_value(field)),
            forall|k: int| i <= k < n ==> perm[k] == k,
            forall|k: int| 0 <= k < i ==> perm[k] < i,
            forall|a: int, b: int|
                0 <= a < b < n ==> perm[a] != perm[b],
            forall|a: int, b: int|
                0 <= a < b < i ==> goes_before(start, field, perm[a], perm[b]),
        decreases n - i,
    {
        let mut j: usize = i;
        while j > 0 && keys[j].sorts_before(&keys[j - 1])
            invariant
                j <= i < n,
                n == start.len(),
                entries.len() == n,
                keys.len() == n,
                perm.len() == n,
                forall|k: int|
                    0 <= k < n ==> 0 <= #[trigger] perm[k] < n && entries@[k] == start[perm[k]],
                forall|k: int|
                    0 <= k < n ==> (#[trigger] keys@[k])@ == key_of(start[perm[k]].field_value(field)),
                forall|k: int| i < k < n ==> perm[k] == k,
                perm[j as int] == i,
                forall|k: int| 0 <= k <= i && k != j ==> perm[k] < i,
                forall|a: int, b: int|
                    0 <= a < b < n ==> perm[a] != perm[b],
                forall|a: int, b: int|
                    0 <= a < b <= i && a != j && b != j ==> goes_before(
                        start,
                        field,
                        perm[a],
                        perm[b],
                    ),
                forall|b: int|
                    j < b <= i ==> precedes(
                        start[i as int].field_value(field),
                        start[perm[b]].field_value(field),
                    ),
            decreases j,
        {
            let ghost before = perm;
            assert(keys@[j as int]@ == key_of(start[perm[j as int]].field_value(field)));
            assert(keys@[j - 1]@ == key_of(start[perm[j - 1]].field_value(field)));
            entries.swap(j - 1, j);
            keys.as_mut_slice().swap(j - 1, j);
            proof {
                perm = perm.update(j - 1, before[j as int]).update(j as int, before[j - 1]);
            }
            j -= 1;
        }
        proof {
            assert(keys@[j as int]@ == key_of(start[perm[j as int]].field_value(field)));
            let x = start[i as int].field_value(field);
            assert forall|a: int, b: int| 0 <= a < b < i + 1 implies goes_before(
                start,
                field,
                perm[a],
                perm[b],
            ) by {
                if a == j {
                } else if b == j {
                    let last = start[perm[j - 1]].field_value(field);
                    assert(keys@[j - 1]@ == key_of(last));
                    assert(!precedes(x, last));
                    let y = start[perm[a]].field_value(field);
                    if a < j - 1 {
                        assert(goes_before(start, field, perm[a], perm[j - 1]));
                        if precedes(x, y) {
                            if precedes(y, last) {
                                lemma_precedes_one_way(y, last);
                            }
                            lemma_precedes(x, y, last);
                        }
                    }
                }
            }
        }
        i += 1;
    }
    assert(arranges(start, entries@, field, perm));
}

/// Sorts `entries` by `sort_field` where every entry has that field, and
/// says whether it did; where some entry lacks the field, nothing changes.
pub fn try_sort<E: SortableField>(entries: &mut [E], sort_field: &str) -> (done: bool)
    ensures
        done == all_have_field(old(entries)@, sort_field@),
        done ==> sorted_by(old(entries)@, final(entries)@, sort_field@),
        !done ==> final(entries)@ == old(entries)@,
{
    let mut i: usize = 0;
    while i < entries.len()
        invariant
            i <= entries.len(),
            entries@ == old(entries)@,
            forall|k: int| 0 <= k < i ==> (#[trigger] entries@[k]).has_field(sort_field@),
        decreases entries.len() - i,
    {
        if !entries[i].knows_field(sort_field) {
            return false;
        }
        i += 1;
    }
    sort(entries, sort_field);
    true
}

} // verus!
