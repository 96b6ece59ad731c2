//! Recognition of the page layouts, and what each of them yields.

use crate::chars::{
    ascii_lower, chars_of, contains, contains_seq, find_first, first_at, has_at, index_of,
    is_ascii_char, lemma_run_unique, lemma_trim, lowercased, str_eq, to_lowercase, trim,
    CharClass,
};
use crate::page::{
    document_text, extract_class, extract_text, first_attr, has_element, or_empty, page_text,
    selected_text, selects,
};
use crate::record::{RawAcs, RawAcsView, SharedAcs, SharedAcsView, Strategy};
use crate::text::{
    after_colon, after_colon_of, clean, clean_text, clearance_level_conversion, converted,
    is_valid_containment_class, valid_containment,
};
use vstd::prelude::*;
use vstd::string::*;

verus! {

/// The marker of a bar.
pub const ACS_BAR: &'static str = "div.anom-bar-container";

/// The marker of a bar in its lite form.
pub const ACS_LITE_BAR: &'static str = "div.anom-lite-bar-container";

/// The clearance level in a bar.
pub const CLEARANCE: &'static str = "div.top-right-box > div.level";

/// The clearance label in a bar.
pub const CLEARANCE_TEXT: &'static str = "div.top-right-box > div.clearance";

/// The containment class in a bar.
pub const CONTAIN: &'static str = "div.contain-class > div.class-text";

/// The secondary class in a bar.
pub const SECONDARY: &'static str = "div.second-class > div.class-text";

/// The disruption class in a bar.
pub const DISRUPT: &'static str = "div.disrupt-class > div.class-text";

/// The risk class in a bar.
pub const RISK: &'static str = "div.risk-class > div.class-text";

/// The marker of a hybrid bar.
pub const ACS_HYBRID_BAR: &'static str = "div.acs-hybrid-text-bar";

/// The clearance level in a hybrid bar.
pub const HYBRID_CLEARANCE: &'static str = "div.acs-clear > strong";

/// The clearance label in a hybrid bar.
pub const HYBRID_CLEARANCE_TEXT: &'static str = "div.acs-clear > span.clearance-level-text";

/// The containment class in a hybrid bar.
pub const HYBRID_CONTAIN: &'static str = "div.acs-contain > div.acs-text > span:nth-of-type(2)";

/// The secondary class in a hybrid bar.
pub const HYBRID_SECONDARY: &'static str =
    "div.acs-secondary > div.acs-text > span:nth-of-type(2)";

/// The disruption class in a hybrid bar.
pub const HYBRID_DISRUPT: &'static str = "div.acs-disrupt > div.acs-text";

/// The risk class in a hybrid bar.
pub const HYBRID_RISK: &'static str = "div.acs-risk > div.acs-text";

/// The marker of a Flops header.
pub const FLOPS_HEADER: &'static str = ".itemInfo.darkbox";

/// The clearance level in a Flops header.
pub const FLOPS_CLEARANCE: &'static str =
    ".itemInfo.darkbox > tbody:nth-child(1) > tr:nth-child(1) > td:nth-child(2) > span:nth-child(1)";

/// The clearance label in a Flops header.
pub const FLOPS_CLEARANCE_TEXT: &'static str =
    ".itemInfo.darkbox > tbody:nth-child(1) > tr:nth-child(2) > td:nth-child(2) > span:nth-child(1)";

/// The containment class in a Flops header.
pub const FLOPS_CONTAIN: &'static str =
    ".itemInfo.darkbox > tbody:nth-child(1) > tr:nth-child(2) > td:nth-child(1)";

/// The disruption class below a Flops header.
pub const FLOPS_DISRUPT: &'static str = ".itemInfo.darkbox + p > a.disruptionHeader";

/// The marker of an AIM header.
pub const AIM_HEADER: &'static str = "div.desktop-aim div.cell-container-image";

/// The element whose class names the clearance level in an AIM header.
pub const AIM_CLEARANCE: &'static str =
    "div.desktop-aim > div.w-container > div > div:nth-child(2) > p > span > span";

/// The containment class in an AIM header.
pub const AIM_CONTAIN: &'static str =
    "div.desktop-aim > div.w-container > div > div:nth-child(3) > p";

/// The disruption class in an AIM header.
pub const AIM_DISRUPT: &'static str =
    "div.desktop-aim > div.w-container > div > div:nth-child(4) > p";

/// Which structural markers a page shows.
#[derive(Clone, Copy, Debug, PartialEq, Eq, Structural)]
pub struct Markers {
    pub bar: bool,
    pub lite_bar: bool,
    pub hybrid_bar: bool,
    pub flops_header: bool,
    pub aim_header: bool,
}

/// The markers that the page `html` shows.
pub open spec fn markers_of(html: Seq<char>) -> Markers {
    Markers {
        bar: selects(html, ACS_BAR@),
        lite_bar: selects(html, ACS_LITE_BAR@),
        hybrid_bar: selects(html, ACS_HYBRID_BAR@),
        flops_header: selects(html, FLOPS_HEADER@),
        aim_header: selects(html, AIM_HEADER@),
    }
}

/// The layout that a page with the markers `m` is read as: the first of bar
/// (or its lite form), hybrid bar, Flops header and AIM header whose marker
/// is there; free text where none is.
pub open spec fn strategy_for(m: Markers) -> Strategy {
    if m.bar || m.lite_bar {
        Strategy::Bar
    } else if m.hybrid_bar {
        Strategy::HybridBar
    } else if m.flops_header {
        Strategy::FlopsHeader
    } else if m.aim_header {
        Strategy::AimHeader
    } else {
        Strategy::HeuristicText
    }
}

/// Looks for each of the five markers on the page `html`.
pub fn detect_markers(html: &str) -> (m: Markers)
    ensures
        m == markers_of(html@),
{
    Markers {
        bar: has_element(html, ACS_BAR),
        lite_bar: has_element(html, ACS_LITE_BAR),
        hybrid_bar: has_element(html, ACS_HYBRID_BAR),
        flops_header: has_element(html, FLOPS_HEADER),
        aim_header: has_element(html, AIM_HEADER),
    }
}

/// The layout that a page with the markers `m` is read as.
pub fn choose_strategy(m: Markers) -> (s: Strategy)
    ensures
        s == strategy_for(m),
        m.bar ==> s == Strategy::Bar,
{
    if m.bar || m.lite_bar {
        Strategy::Bar
    } else if m.hybrid_bar {
        Strategy::HybridBar
    } else if m.flops_header {
        Strategy::FlopsHeader
    } else if m.aim_header {
        Strategy::AimHeader
    } else {
        Strategy::HeuristicText
    }
}

/// The trimmed text at `selector`; empty where the page has no such element.
pub open spec fn field_text(html: Seq<char>, selector: Seq<char>) -> Seq<char> {
    or_empty(selected_text(html, selector))
}

/// The cleaned text at `selector`.
pub open spec fn clean_field(html: Seq<char>, selector: Seq<char>) -> Seq<char> {
    clean(field_text(html, selector))
}

/// The trimmed text at `selector`; empty where the page has no such element.
fn text_at(html: &str, selector: &str) -> (r: String)
    ensures
        r@ == field_text(html@, selector@),
{
    match extract_text(html, selector) {
        Some(t) => t,
        None => String::new(),
    }
}

/// The cleaned text at `selector`.
fn cleaned_at(html: &str, selector: &str) -> (r: String)
    ensures
        r@ == clean_field(html@, selector@),
{
    let t = text_at(html, selector);
    clean_text(t.as_str())
}

/// A containment class and the secondary class beside it: a class of the
/// vocabulary stays and has nothing beside it; any other value moves to the
/// secondary class and leaves "esoteric" behind.
pub open spec fn demoted(contain: Seq<char>) -> (Seq<char>, Seq<char>) {
    if valid_containment(contain) {
        (contain, Seq::empty())
    } else {
        ("esoteric"@, contain)
    }
}

/// Checks a containment class against the vocabulary, and demotes a value
/// that is outside it.
pub fn demote(contain: String) -> (r: (String, String))
    ensures
        (r.0@, r.1@) == demoted(contain@),
        !valid_containment(contain@) ==> r.0@ == "esoteric"@ && r.1@ == contain@,
{
    if is_valid_containment_class(contain.as_str()) {
        (contain, String::new())
    } else {
        (String::from_str("esoteric"), contain)
    }
}

/// A clearance label without the placeholder word that an unfilled hybrid
/// bar shows.
pub open spec fn without_placeholder(t: Seq<char>) -> Seq<char> {
    if t == "Clearance"@ {
        Seq::empty()
    } else {
        t
    }
}

/// Empties a clearance label that is the placeholder word.
pub fn discard_placeholder(t: String) -> (r: String)
    ensures
        r@ == without_placeholder(t@),
{
    if str_eq(t.as_str(), "Clearance") {
        String::new()
    } else {
        t
    }
}

/// The clearance level that the class token of an AIM header stands for.
pub open spec fn level_for_token(token: Seq<char>) -> Seq<char> {
    if token == "one"@ {
        "LEVEL 1"@
    } else if token == "two"@ {
        "LEVEL 2"@
    } else if token == "three"@ {
        "LEVEL 3"@
    } else if token == "four"@ {
        "LEVEL 4"@
    } else if token == "five"@ {
        "LEVEL 5"@
    } else if token == "six"@ {
        "LEVEL 6"@
    } else {
        Seq::empty()
    }
}

/// The clearance level that the class token of an AIM header stands for.
pub fn level_from_token(token: &str) -> (r: String)
    ensures
        r@ == level_for_token(token@),
{
    if str_eq(token, "one") {
        String::from_str("LEVEL 1")
    } else if str_eq(token, "two") {
        String::from_str("LEVEL 2")
    } else if str_eq(token, "three") {
        String::from_str("LEVEL 3")
    } else if str_eq(token, "four") {
        String::from_str("LEVEL 4")
    } else if str_eq(token, "five") {
        String::from_str("LEVEL 5")
    } else if str_eq(token, "six") {
        String::from_str("LEVEL 6")
    } else {
        String::new()
    }
}

/// What a page with a bar yields.
pub open spec fn bar_record(html: Seq<char>) -> RawAcsView {
    RawAcsView::Bar {
        shared: SharedAcsView {
            contain: clean_field(html, CONTAIN@),
            secondary: clean_field(html, SECONDARY@),
            disrupt: clean_field(html, DISRUPT@),
            scraper: Strategy::Bar,
        },
        clearance: converted(clean_field(html, CLEARANCE@)),
        clearance_text: clean_field(html, CLEARANCE_TEXT@),
        risk: clean_field(html, RISK@),
    }
}

/// What a page with a hybrid bar yields. The clearance level is taken from
/// the text as it stands on the page, before any rule of `clean` has cut it.
pub open spec fn hybrid_bar_record(html: Seq<char>) -> RawAcsView {
    RawAcsView::Bar {
        shared: SharedAcsView {
            contain: clean_field(html, HYBRID_CONTAIN@),
            secondary: clean_field(html, HYBRID_SECONDARY@),
            disrupt: clean_field(html, HYBRID_DISRUPT@),
            scraper: Strategy::HybridBar,
        },
        clearance: converted(field_text(html, HYBRID_CLEARANCE@)),
        clearance_text: without_placeholder(clean_field(html, HYBRID_CLEARANCE_TEXT@)),
        risk: clean_field(html, HYBRID_RISK@),
    }
}

/// What a page with a Flops header yields.
pub open spec fn flops_record(html: Seq<char>) -> RawAcsView {
    let classes = demoted(clean_field(html, FLOPS_CONTAIN@));
    RawAcsView::Flops {
        shared: SharedAcsView {
            contain: classes.0,
            secondary: classes.1,
            disrupt: clean_field(html, FLOPS_DISRUPT@),
            scraper: Strategy::FlopsHeader,
        },
        clearance: converted(clean_field(html, FLOPS_CLEARANCE@)),
        clearance_text: clean_field(html, FLOPS_CLEARANCE_TEXT@),
    }
}

/// What a page with an AIM header yields.
pub open spec fn aim_record(html: Seq<char>) -> RawAcsView {
    let classes = demoted(clean_field(html, AIM_CONTAIN@));
    RawAcsView::Aim {
        shared: SharedAcsView {
            contain: classes.0,
            secondary: classes.1,
            disrupt: clean_field(html, AIM_DISRUPT@),
            scraper: Strategy::AimHeader,
        },
        clearance: level_for_token(or_empty(first_attr(html, AIM_CLEARANCE@, "class"@))),
    }
}

/// Reads a page with a bar.
pub fn get_acs_bar(html: &str) -> (r: RawAcs)
    ensures
        r@ == bar_record(html@),
{
    let level = cleaned_at(html, CLEARANCE);
    let clearance = clearance_level_conversion(level.as_str());
    let clearance_text = cleaned_at(html, CLEARANCE_TEXT);
    let contain = cleaned_at(html, CONTAIN);
    let secondary = cleaned_at(html, SECONDARY);
    let disrupt = cleaned_at(html, DISRUPT);
    let risk = cleaned_at(html, RISK);
    RawAcs::Bar {
        shared: SharedAcs { contain, secondary, disrupt, scraper: Strategy::Bar },
        clearance,
        clearance_text,
        risk,
    }
}

/// Reads a page with a hybrid bar.
pub fn get_acs_hybrid_bar(html: &str) -> (r: RawAcs)
    ensures
        r@ == hybrid_bar_record(html@),
{
    let level = text_at(html, HYBRID_CLEARANCE);
    let clearance = clearance_level_conversion(level.as_str());
    let clearance_text = discard_placeholder(cleaned_at(html, HYBRID_CLEARANCE_TEXT));
    let contain = cleaned_at(html, HYBRID_CONTAIN);
    let secondary = cleaned_at(html, HYBRID_SECONDARY);
    let disrupt = cleaned_at(html, HYBRID_DISRUPT);
    let risk = cleaned_at(html, HYBRID_RISK);
    RawAcs::Bar {
        shared: SharedAcs { contain, secondary, disrupt, scraper: Strategy::HybridBar },
        clearance,
        clearance_text,
        risk,
    }
}

/// Reads a page with a Flops header.
pub fn get_flops_header(html: &str) -> (r: RawAcs)
    ensures
        r@ == flops_record(html@),
{
    let level = cleaned_at(html, FLOPS_CLEARANCE);
    let clearance = clearance_level_conversion(level.as_str());
    let clearance_text = cleaned_at(html, FLOPS_CLEARANCE_TEXT);
    let (contain, secondary) = demote(cleaned_at(html, FLOPS_CONTAIN));
    let disrupt = cleaned_at(html, FLOPS_DISRUPT);
    RawAcs::Flops {
        shared: SharedAcs { contain, secondary, disrupt, scraper: Strategy::FlopsHeader },
        clearance,
        clearance_text,
    }
}

/// Reads a page with an AIM header.
pub fn get_aim_header(html: &str) -> (r: RawAcs)
    ensures
        r@ == aim_record(html@),
{
    let token = match extract_class(html, AIM_CLEARANCE) {
        Some(t) => t,
        None => String::new(),
    };
    let clearance = level_from_token(token.as_str());
    let (contain, secondary) = demote(cleaned_at(html, AIM_CONTAIN));
    let disrupt = cleaned_at(html, AIM_DISRUPT);
    RawAcs::Aim {
        shared: SharedAcs { contain, secondary, disrupt, scraper: Strategy::AimHeader },
        clearance,
    }
}

/// What stands after the first occurrence of the label `label` in `t`, up to
/// the end of that line; `None` where `t` does not hold the label.
pub open spec fn labelled(t: Seq<char>, label: Seq<char>) -> Option<Seq<char>> {
    if contains(t, label) {
        Some(after_colon(t.skip(index_of(t, label))))
    } else {
        None
    }
}

/// The first of the disruption keywords that stands in `t` as a word of its
/// own, with a blank on either side.
pub open spec fn keyword_of(t: Seq<char>) -> Option<Seq<char>> {
    if contains(t, " vlam "@) {
        Some("vlam"@)
    } else if contains(t, " keneq "@) {
        Some("keneq"@)
    } else if contains(t, " ekhi "@) {
        Some("ekhi"@)
    } else if contains(t, " amida "@) {
        Some("amida"@)
    } else {
        None
    }
}

/// The disruption class that free text names: a keyword where there is one,
/// else what is labelled as the disruption class.
pub open spec fn disruption_of(t: Seq<char>) -> Seq<char> {
    match keyword_of(t) {
        Some(k) => k,
        None => or_empty(labelled(t, "disruption class:"@)),
    }
}

/// What the free text `t` of a page yields, `t` being in lower case: the
/// labelled classes and the disruption keyword, cleaned; nothing where
/// disruption, risk and secondary class are all empty.
pub open spec fn backup_of(t: Seq<char>) -> Option<RawAcsView> {
    let contain = clean(or_empty(labelled(t, "containment class:"@)));
    let disrupt = clean(disruption_of(t));
    let risk = clean(or_empty(labelled(t, "risk class:"@)));
    let secondary = clean(or_empty(labelled(t, "secondary class:"@)));
    if disrupt.len() == 0 && risk.len() == 0 && secondary.len() == 0 {
        None
    } else {
        Some(
            RawAcsView::Backup {
                shared: SharedAcsView {
                    contain,
                    secondary,
                    disrupt,
                    scraper: Strategy::HeuristicText,
                },
                risk,
            },
        )
    }
}

/// The view of an optional raw record.
pub open spec fn raw_view(r: Option<RawAcs>) -> Option<RawAcsView> {
    match r {
        Some(r) => Some(r@),
        None => None,
    }
}

/// What the page `html` yields: the record of the layout that its markers
/// select, or that of its free text where it shows no marker.
pub open spec fn extracted(html: Seq<char>) -> Option<RawAcsView> {
    match strategy_for(markers_of(html)) {
        Strategy::Bar => Some(bar_record(html)),
        Strategy::HybridBar => Some(hybrid_bar_record(html)),
        Strategy::FlopsHeader => Some(flops_record(html)),
        Strategy::AimHeader => Some(aim_record(html)),
        Strategy::HeuristicText => backup_of(lowercased(page_text(html))),
    }
}

fn label_value(v: &Vec<char>, label: &str) -> (r: String)
    ensures
        r@ == or_empty(labelled(v@, label@)),
{
    let pat = chars_of(label);
    match find_first(v, &pat) {
        Some(i) => {
            assert(v@.skip(i as int) == v@.subrange(i as int, v@.len() as int));
            after_colon_of(v, i, v.len())
        },
        None => String::new(),
    }
}

fn has_word(v: &Vec<char>, word: &str) -> (r: bool)
    ensures
        r == contains(v@, word@),
{
    let pat = chars_of(word);
    contains_seq(v, &pat)
}

fn disruption_in(v: &Vec<char>) -> (r: String)
    ensures
        r@ == disruption_of(v@),
{
    if has_word(v, " vlam ") {
        String::from_str("vlam")
    } else if has_word(v, " keneq ") {
        String::from_str("keneq")
    } else if has_word(v, " ekhi ") {
        String::from_str("ekhi")
    } else if has_word(v, " amida ") {
        String::from_str("amida")
    } else {
        label_value(v, "disruption class:")
    }
}

/// Reads the classes out of the free text of a page, given in lower case.
pub fn backup_from_text(text: &str) -> (r: Option<RawAcs>)
    ensures
        raw_view(r) == backup_of(text@),
{
    let v = chars_of(text);
    let contain = clean_text(label_value(&v, "containment class:").as_str());
    let disrupt = clean_text(disruption_in(&v).as_str());
    let risk = clean_text(label_value(&v, "risk class:").as_str());
    let secondary = clean_text(label_value(&v, "secondary class:").as_str());
    if disrupt.as_str().unicode_len() == 0 && risk.as_str().unicode_len() == 0
        && secondary.as_str().unicode_len() == 0 {
        return None;
    }
    Some(
        RawAcs::Backup {
            shared: SharedAcs { contain, secondary, disrupt, scraper: Strategy::HeuristicText },
            risk,
        },
    )
}

/// Reads a page that shows no marker, by the free text that it holds.
pub fn backup_acs_function(html: &str) -> (r: Option<RawAcs>)
    ensures
        raw_view(r) == backup_of(lowercased(page_text(html@))),
{
    let text = to_lowercase(document_text(html).as_str());
    backup_from_text(text.as_str())
}

/// Reads a page: picks the layout by the markers and reads what that layout
/// yields. Only free text may yield nothing.
pub fn extract(html: &str) -> (r: Option<RawAcs>)
    ensures
        raw_view(r) == extracted(html@),
        strategy_for(markers_of(html@)) != Strategy::HeuristicText ==> r is Some,
        r matches Some(raw) ==> raw@.shared().scraper == strategy_for(markers_of(html@)),
{
    match choose_strategy(detect_markers(html)) {
        Strategy::Bar => Some(get_acs_bar(html)),
        Strategy::HybridBar => Some(get_acs_hybrid_bar(html)),
        Strategy::FlopsHeader => Some(get_flops_header(html)),
        Strategy::AimHeader => Some(get_aim_header(html)),
        Strategy::HeuristicText => backup_acs_function(html),
    }
}

/// A page that shows the bar is read as a bar, whatever else it shows: the
/// hybrid bar beside it changes nothing.
pub proof fn lemma_bar_wins(html: Seq<char>)
    requires
        selects(html, ACS_BAR@),
        selects(html, ACS_HYBRID_BAR@),
    ensures
        strategy_for(markers_of(html)) == Strategy::Bar,
        extracted(html) == Some(bar_record(html)),
        bar_record(html).shared().scraper == Strategy::Bar,
{
}

/// The layout of a page depends on the first marker alone that it shows, in
/// the fixed order; markers further down the order do not matter.
pub proof fn lemma_priority(m: Markers)
    ensures
        (m.bar || m.lite_bar) ==> strategy_for(m) == Strategy::Bar,
        !(m.bar || m.lite_bar) && m.hybrid_bar ==> strategy_for(m) == Strategy::HybridBar,
        !(m.bar || m.lite_bar) && !m.hybrid_bar && m.flops_header ==> strategy_for(m)
            == Strategy::FlopsHeader,
        !(m.bar || m.lite_bar) && !m.hybrid_bar && !m.flops_header && m.aim_header
            ==> strategy_for(m) == Strategy::AimHeader,
        !(m.bar || m.lite_bar) && !m.hybrid_bar && !m.flops_header && !m.aim_header
            ==> strategy_for(m) == Strategy::HeuristicText,
{
}

/// A containment value outside the vocabulary is demoted: under a Flops
/// header and under an AIM header the record then holds "esoteric" as its
/// containment class and the cleaned value itself as its secondary class.
pub proof fn lemma_demotion(html: Seq<char>)
    ensures
        !valid_containment(clean_field(html, FLOPS_CONTAIN@)) ==> {
            &&& flops_record(html).shared().contain == "esoteric"@
            &&& flops_record(html).shared().secondary == clean_field(html, FLOPS_CONTAIN@)
        },
        !valid_containment(clean_field(html, AIM_CONTAIN@)) ==> {
            &&& aim_record(html).shared().contain == "esoteric"@
            &&& aim_record(html).shared().secondary == clean_field(html, AIM_CONTAIN@)
        },
        valid_containment(clean_field(html, FLOPS_CONTAIN@)) ==> {
            &&& flops_record(html).shared().contain == clean_field(html, FLOPS_CONTAIN@)
            &&& flops_record(html).shared().secondary.len() == 0
        },
        valid_containment(clean_field(html, AIM_CONTAIN@)) ==> {
            &&& aim_record(html).shared().contain == clean_field(html, AIM_CONTAIN@)
            &&& aim_record(html).shared().secondary.len() == 0
        },
{
}

proof fn lemma_small_index(i: int)
    requires
        0 <= i < 22,
    ensures
        i == 0 || i == 1 || i == 2 || i == 3 || i == 4 || i == 5 || i == 6 || i == 7 || i == 8
            || i == 9 || i == 10 || i == 11 || i == 12 || i == 13 || i == 14 || i == 15 || i == 16
            || i == 17 || i == 18 || i == 19 || i == 20 || i == 21,
{
}

/// A text does not hold a pattern of which the first two characters stand
/// nowhere in it side by side.
proof fn lemma_not_contained(t: Seq<char>, pat: Seq<char>)
    requires
        pat.len() >= 2,
        forall|i: int|
            0 <= i && i + pat.len() <= t.len() ==> #[trigger] t[i] != pat[0] || t[i + 1] != pat[1],
    ensures
        !contains(t, pat),
{
    assert forall|i: int| !has_at(t, pat, i) by {
        if has_at(t, pat, i) {
            let w = t.subrange(i, i + pat.len());
            assert(w[0] == t[i]);
            assert(w[1] == t[i + 1]);
        }
    }
}

/// The empty value is clean.
pub proof fn lemma_clean_empty()
    ensures
        clean(Seq::<char>::empty()) == Seq::<char>::empty(),
{
    reveal_strlit("{$");
    reveal_strlit("none");
    let e = Seq::<char>::empty();
    lemma_trim(e);
    assert(trim(e) == e);
    assert(!contains(e, "{$"@)) by {
        assert forall|i: int| !has_at(e, "{$"@, i) by {}
    }
}

/// The word "vlam" is clean.
pub proof fn lemma_clean_vlam()
    ensures
        clean("vlam"@) == "vlam"@,
{
    reveal_strlit("vlam");
    reveal_strlit("{$");
    reveal_strlit("none");
    reveal_strlit("n/a");
    let v = "vlam"@;
    lemma_trim(v);
    assert(v.last() == v[3]);
    assert(trim(v) == v);
    assert(!contains(v, "{$"@)) by {
        assert forall|i: int| 0 <= i && i + 2 <= v.len() implies #[trigger] v[i] != "{$"@[0] || v[i
            + 1] != "{$"@[1] by {
            lemma_small_index(i);
        }
        lemma_not_contained(v, "{$"@);
    }
    assert(ascii_lower(v[0]) != ascii_lower("none"@[0]));
    assert(!v.contains(':')) by {
        assert forall|i: int| 0 <= i < v.len() implies v[i] != ':' by {
            lemma_small_index(i);
        }
    }
    assert(!v.contains('/')) by {
        assert forall|i: int| 0 <= i < v.len() implies v[i] != '/' by {
            lemma_small_index(i);
        }
    }
}

/// The text "disruption class: vlam" does not hold a pattern that begins as
/// one of the other three labels does, nor one of six characters or more
/// that begins with a blank and goes on otherwise than with "c".
proof fn lemma_absent_from_label(p: Seq<char>)
    requires
        p.len() >= 2,
        (p[0] == 'c' && p[1] == 'o') || (p[0] == 'r' && p[1] == 'i') || (p[0] == 's' && p[1]
            == 'e') || (p[0] == ' ' && p[1] != 'c' && p.len() >= 6),
    ensures
        !contains("disruption class: vlam"@, p),
{
    reveal_strlit("disruption class: vlam");
    let t = "disruption class: vlam"@;
    assert forall|i: int| 0 <= i && i + p.len() <= t.len() implies #[trigger] t[i] != p[0] || t[i
        + 1] != p[1] by {
        lemma_small_index(i);
    }
    lemma_not_contained(t, p);
}

/// In the text "disruption class: vlam" the disruption class is labelled
/// "vlam".
proof fn lemma_disruption_label()
    ensures
        labelled("disruption class: vlam"@, "disruption class:"@) == Some("vlam"@),
{
    reveal_strlit("disruption class: vlam");
    reveal_strlit("disruption class:");
    reveal_strlit("vlam");
    let t = "disruption class: vlam"@;
    let v = "vlam"@;
    let p = "disruption class:"@;
    assert(t.subrange(0, 17) =~= p);
    assert(has_at(t, p, 0));
    assert(first_at(t, p, 0));
    let j = index_of(t, p);
    assert(first_at(t, p, j));
    assert(j == 0);
    assert(t.skip(0) == t);
    assert(t[16] == ':');
    assert(t.contains(':'));
    assert forall|i: int| 0 <= i < 16 implies CharClass::Except(':').has(#[trigger] t[i]) by {
        lemma_small_index(i);
    }
    lemma_run_unique(t, CharClass::Except(':'), 16);
    let rest = t.skip(17);
    assert(rest.len() == 5);
    assert forall|i: int| 0 <= i < 5 implies CharClass::Except('\n').has(#[trigger] rest[i]) by {
        assert(rest[i] == t[17 + i]);
        lemma_small_index(i);
    }
    lemma_run_unique(rest, CharClass::Except('\n'), 5);
    let line = rest.take(5);
    assert(line == rest);
    assert(line[0] == t[17] && line[1] == t[18]);
    lemma_run_unique(line, CharClass::WhiteSpace, 1);
    assert(line.skip(1) =~= v);
}

/// Free text that holds nothing but a labelled disruption class yields that
/// class and nothing else.
pub proof fn lemma_labelled_disruption_text()
    ensures
        backup_of("disruption class: vlam"@) == Some(
            RawAcsView::Backup {
                shared: SharedAcsView {
                    contain: Seq::empty(),
                    secondary: Seq::empty(),
                    disrupt: "vlam"@,
                    scraper: Strategy::HeuristicText,
                },
                risk: Seq::empty(),
            },
        ),
{
    reveal_strlit("vlam");
    reveal_strlit("containment class:");
    reveal_strlit("risk class:");
    reveal_strlit("secondary class:");
    reveal_strlit(" vlam ");
    reveal_strlit(" keneq ");
    reveal_strlit(" ekhi ");
    reveal_strlit(" amida ");
    lemma_absent_from_label("containment class:"@);
    lemma_absent_from_label("risk class:"@);
    lemma_absent_from_label("secondary class:"@);
    lemma_absent_from_label(" vlam "@);
    lemma_absent_from_label(" keneq "@);
    lemma_absent_from_label(" ekhi "@);
    lemma_absent_from_label(" amida "@);
    lemma_disruption_label();
    lemma_clean_empty();
    lemma_clean_vlam();
}

/// A page without a marker whose text is nothing but a labelled disruption
/// class is read by its free text, and yields that class and nothing else.
pub proof fn lemma_labelled_disruption_page(html: Seq<char>)
    requires
        strategy_for(markers_of(html)) == Strategy::HeuristicText,
        page_text(html) == "disruption class: vlam"@,
    ensures
        extracted(html) == Some(
            RawAcsView::Backup {
                shared: SharedAcsView {
                    contain: Seq::empty(),
                    secondary: Seq::empty(),
                    disrupt: "vlam"@,
                    scraper: Strategy::HeuristicText,
                },
                risk: Seq::empty(),
            },
        ),
{
    reveal_strlit("disruption class: vlam");
    let t = "disruption class: vlam"@;
    assert forall|i: int| 0 <= i < t.len() implies is_ascii_char(#[trigger] t[i]) && ascii_lower(
        t[i],
    ) == t[i] by {
        lemma_small_index(i);
    }
    assert(lowercased(t) =~= t);
    lemma_labelled_disruption_text();
}

} // verus!
