//! The discovery feed: the links on the pages that list where a layout
//! component is used, each turned into an entry to reconcile.

use crate::assemble::{find_entry, first_entry};
use crate::chars::{
    chars_of, contains, contains_seq, has_at, lemma_tail_run_unique, lowercased, matches_at,
    slice_of, string_of, tail_run, to_lowercase, to_string, trim, trim_bounds, CharClass,
};
use crate::ident::{format_number, group_number, identifier, number_from_group};
use crate::page::{document_element_text, first_text_anywhere};
use crate::pattern::{
    find_group, first_group, has_match, is_match, opt_view, remove_matches, without_matches,
};
use crate::record::{BacklinksInfo, BacklinksInfoView, SCPInfo};
use vstd::prelude::*;
use vstd::string::*;

verus! {

/// An identifier at the end of a text: the prefix in any case, at a word
/// boundary, and one to four digits.
pub const SCP_NUM: &'static str = "(?i)\\bscp-([0-9]{1,4})$";

/// A path in round brackets after a name.
pub const PATH_NOTE: &'static str = " \\(/\\S+\\)";

/// The links of a listing.
pub const LINKS: &'static str = "ul li a:first-of-type";

/// The last breadcrumb of a page.
pub const BREADCRUMB: &'static str = "#breadcrumbs > a:last-of-type";

/// The address of the site, before the path of a page.
pub const SITE: &'static str = "https://scp-wiki.wikidot.com";

/// For each element of the document built from `html` that `selector`
/// matches, in the order in which `Html::select` yields them, which is the
/// order in which the parser made the nodes: the value of its attribute
/// `attr`, empty where it has none, and its text nodes, joined. Empty where
/// `selector` is not a valid selector.
pub uninterp spec fn listed_links(html: Seq<char>, selector: Seq<char>, attr: Seq<char>) -> Seq<
    (Seq<char>, Seq<char>),
>;

/// `s` in title case, as `titlecase::titlecase` writes it.
pub uninterp spec fn titlecased(s: Seq<char>) -> Seq<char>;

/// The views of a list of pairs of strings.
pub open spec fn pairs_view(v: Seq<(String, String)>) -> Seq<(Seq<char>, Seq<char>)> {
    Seq::new(v.len(), |i: int| (v[i].0@, v[i].1@))
}

/// Parses `html` with `scraper::Html::parse_document` and `selector` with
/// `Selector::parse`, and reads from each element that `Html::select` gives
/// the attribute, with `Element::attr`, and the text, with `ElementRef::text`.
/// Trusted: the result is what `listed_links` names, a function of the three
/// texts alone.
#[verifier::external_body]
pub(crate) fn select_links(html: &str, selector: &str, attr: &str) -> (r: Vec<(String, String)>)
    ensures
        pairs_view(r@) == listed_links(html@, selector@, attr@),
{
    let Ok(sel) = scraper::Selector::parse(selector) else {
        return Vec::new();
    };
    scraper::Html::parse_document(html).select(&sel).map(
        |e| (e.value().attr(attr).unwrap_or_default().to_string(), e.text().collect::<String>()),
    ).collect()
}

/// Calls `titlecase::titlecase`. Trusted: the result is what `titlecased`
/// names, a function of the input text alone. The call descends once for each
/// round bracket that opens a word, so its stack grows with the brackets at
/// the head of the longest word.
#[verifier::external_body]
pub(crate) fn title_case(s: &str) -> (r: String)
    ensures
        r@ == titlecased(s@),
{
    titlecase::titlecase(s)
}

/// The address and the text of every link of the listing `html`.
pub fn links_of(html: &str) -> (r: Vec<(String, String)>)
    ensures
        pairs_view(r@) == listed_links(html@, LINKS@, "href"@),
{
    select_links(html, LINKS, "href")
}

/// The text of the last breadcrumb of the page `html`, if it has one.
pub fn breadcrumb_of(html: &str) -> (r: Option<String>)
    ensures
        opt_view(r) == first_text_anywhere(html@, BREADCRUMB@),
{
    document_element_text(html, BREADCRUMB)
}

/// The number of the identifier at the end of `scp_str`.
pub fn extract_scp_number(scp_str: &str) -> (r: Option<u16>)
    ensures
        r == group_number(first_group(SCP_NUM@, scp_str@)),
{
    number_from_group(find_group(SCP_NUM, scp_str))
}

/// A text that marks a link as none to an entry: an outside address, a
/// component, a guide, an author page and the like.
pub open spec fn excluded(t: Seq<char>) -> bool {
    ||| is_match("(?i)http"@, t)
    ||| is_match("(?i)component"@, t)
    ||| is_match("(?i)guide"@, t)
    ||| is_match("(?i)author"@, t)
    ||| is_match("(?i)memo"@, t)
    ||| is_match("(?i)acs"@, t)
    ||| is_match("(?i)personnel"@, t)
    ||| is_match("(?i)icons"@, t)
    ||| is_match("(?i)art:"@, t)
    ||| is_match("(?i)resource"@, t)
    ||| is_match("(?i)theme"@, t)
}

/// Whether a text marks a link as none to an entry.
pub fn is_excluded(t: &str) -> (r: bool)
    ensures
        r == excluded(t@),
{
    has_match("(?i)http", t) || has_match("(?i)component", t) || has_match("(?i)guide", t) || has_match(
        "(?i)author",
        t,
    ) || has_match("(?i)memo", t) || has_match("(?i)acs", t) || has_match("(?i)personnel", t)
        || has_match("(?i)icons", t) || has_match("(?i)art:", t) || has_match("(?i)resource", t)
        || has_match("(?i)theme", t)
}

/// `s` with every occurrence of `from` replaced by `to`, from left to right,
/// occurrences not overlapping. `from` is not empty.
pub open spec fn replaced(s: Seq<char>, from: Seq<char>, to: Seq<char>) -> Seq<char>
    decreases s.len(),
{
    if from.len() == 0 || s.len() < from.len() {
        s
    } else if has_at(s, from, 0) {
        to + replaced(s.skip(from.len() as int), from, to)
    } else {
        seq![s[0]] + replaced(s.skip(1), from, to)
    }
}

fn replace(v: &Vec<char>, from: &str, to: &str) -> (r: Vec<char>)
    requires
        from@.len() > 0,
    ensures
        r@ == replaced(v@, from@, to@),
{
    let from = chars_of(from);
    let to = chars_of(to);
    let mut out: Vec<char> = Vec::new();
    let mut i: usize = 0;
    assert(v@.skip(0) == v@);
    while v.len() - i >= from.len()
        invariant
            i <= v.len(),
            from@.len() > 0,
            out@ + replaced(v@.skip(i as int), from@, to@) == replaced(v@, from@, to@),
        decreases v.len() - i,
    {
        let ghost rest = v@.skip(i as int);
        let ghost done = out@;
        assert(rest.subrange(0, from@.len() as int) == v@.subrange(i as int, i + from@.len()));
        if matches_at(v, &from, i) {
            let mut k: usize = 0;
            while k < to.len()
                invariant
                    k <= to.len(),
                    out@ == done + to@.take(k as int),
                decreases to.len() - k,
            {
                out.push(to[k]);
                k += 1;
                assert(to@.take(k as int) == to@.take(k - 1).push(to@[k - 1]));
            }
            assert(to@.take(to@.len() as int) == to@);
            assert(rest.skip(from@.len() as int) == v@.skip(i + from@.len()));
            i += from.len();
            assert(out@ + replaced(v@.skip(i as int), from@, to@) == done + (to@ + replaced(
                v@.skip(i as int),
                from@,
                to@,
            )));
        } else {
            out.push(v[i]);
            assert(rest.skip(1) == v@.skip(i + 1));
            assert(rest[0] == v@[i as int]);
            i += 1;
            assert(out@ + replaced(v@.skip(i as int), from@, to@) == done + (seq![rest[0]]
                + replaced(v@.skip(i as int), from@, to@)));
        }
    }
    let ghost done = out@;
    let ghost tail = v@.skip(i as int);
    let start = i;
    while i < v.len()
        invariant
            start <= i <= v.len(),
            out@ == done + v@.subrange(start as int, i as int),
        decreases v.len() - i,
    {
        out.push(v[i]);
        i += 1;
        assert(v@.subrange(start as int, i as int) == v@.subrange(start as int, i - 1).push(
            v@[i - 1],
        ));
    }
    assert(v@.subrange(start as int, v@.len() as int) == tail);
    out
}

/// What follows the last slash of `s`; all of `s` where it has none.
pub open spec fn last_segment(s: Seq<char>) -> Seq<char> {
    s.skip(s.len() - tail_run(s, CharClass::Except('/')))
}

/// The name that the path `url` suggests: its last segment without the
/// fragment marker, with "ii" in capitals, "-s" as a genitive and the other
/// hyphens as blanks, in title case.
pub open spec fn name_from_slug(url: Seq<char>) -> Seq<char> {
    titlecased(
        replaced(
            replaced(replaced(replaced(last_segment(url), "fragment:"@, ""@), "ii"@, "II"@), "-s"@, "'s"@),
            "-"@,
            " "@,
        ),
    )
}

/// The name that the path `url` suggests.
pub fn name_from_url(url: &str) -> (r: String)
    ensures
        r@ == name_from_slug(url@),
{
    let v = chars_of(url);
    let ghost k = CharClass::Except('/');
    let mut i: usize = v.len();
    while i > 0 && v[i - 1] != '/'
        invariant
            i <= v.len(),
            k == CharClass::Except('/'),
            forall|j: int| i <= j < v.len() ==> k.has(#[trigger] v@[j]),
        decreases i,
    {
        i -= 1;
    }
    proof {
        lemma_tail_run_unique(v@, k, v.len() - i);
        assert(v@.skip(i as int) == v@.subrange(i as int, v@.len() as int));
        reveal_strlit("fragment:");
        reveal_strlit("ii");
        reveal_strlit("-s");
        reveal_strlit("-");
    }
    let segment = slice_of(&v, i, v.len());
    let a = replace(&segment, "fragment:", "");
    let b = replace(&a, "ii", "II");
    let c = replace(&b, "-s", "'s");
    let d = replace(&c, "-", " ");
    title_case(to_string(&d).as_str())
}

/// The link leads to a fragment: a part of an entry on a page of its own.
pub open spec fn is_fragment_link(url: Seq<char>) -> bool {
    contains(url, "fragment:"@)
}

/// The link is passed over: its address or its text marks it as none to an
/// entry.
pub open spec fn skipped(url: Seq<char>, text: Seq<char>) -> bool {
    excluded(url) || excluded(trim(text))
}

/// The name of the entry `number` in the catalogue; `number` itself where the
/// catalogue does not list it.
pub open spec fn catalog_name(catalog: Seq<SCPInfo>, number: Seq<char>) -> Seq<char> {
    match first_entry(catalog, number) {
        Some(e) => e.name@,
        None => number,
    }
}

/// The name of the entry `actual_number` in the catalogue; the identifier
/// itself where the catalogue does not list it.
pub fn get_scp_name(catalog: &[SCPInfo], actual_number: &str) -> (r: String)
    ensures
        r@ == catalog_name(catalog@, actual_number@),
{
    match find_entry(catalog, actual_number) {
        Some(e) => e.name.clone(),
        None => String::from_str(actual_number),
    }
}

/// The number of bytes of `s` in UTF-8.
pub open spec fn byte_len(s: Seq<char>) -> nat {
    vstd::utf8::encode_utf8(s).len()
}

/// The entry named by an identifier found in a text: its identifier and the
/// name that the catalogue gives it; `otherwise` where the group found holds
/// no number.
pub open spec fn named_by(
    group: Option<Seq<char>>,
    catalog: Seq<SCPInfo>,
    otherwise: (Seq<char>, Seq<char>),
) -> (Seq<char>, Seq<char>) {
    match group_number(group) {
        Some(n) => (identifier(n as nat), catalog_name(catalog, identifier(n as nat))),
        None => otherwise,
    }
}

/// The identifier and the name that the address and the text of a link give:
/// those of the entry whose identifier ends the address of a page that is no
/// fragment; else no identifier, and the text of the link without a path
/// note, or the name that the address suggests where the text is at most one
/// byte long.
pub open spec fn from_link(url: Seq<char>, text: Seq<char>, catalog: Seq<SCPInfo>) -> (
    Seq<char>,
    Seq<char>,
) {
    let name = without_matches(PATH_NOTE@, trim(text));
    if is_match(SCP_NUM@, url) && !is_fragment_link(url) {
        named_by(first_group(SCP_NUM@, url), catalog, (Seq::empty(), name))
    } else if byte_len(name) <= 1 {
        (Seq::empty(), name_from_slug(url))
    } else {
        (Seq::empty(), name)
    }
}

/// The identifier and the name after the breadcrumb of a fragment's page has
/// been read: those of the entry whose identifier ends the breadcrumb; else
/// the breadcrumb as the name; unchanged where the page has no breadcrumb.
pub open spec fn with_breadcrumb(
    before: (Seq<char>, Seq<char>),
    crumb: Option<Seq<char>>,
    catalog: Seq<SCPInfo>,
) -> (Seq<char>, Seq<char>) {
    match crumb {
        None => before,
        Some(text) => if is_match(SCP_NUM@, text) {
            named_by(first_group(SCP_NUM@, text), catalog, before)
        } else {
            (before.0, text)
        },
    }
}

/// The identifier of an entry: that of the reserved first entry where the
/// name or the address speaks of a proposal.
pub open spec fn numbered(number: Seq<char>, name: Seq<char>, url: Seq<char>) -> Seq<char> {
    if contains(lowercased(name), "proposal"@) || contains(lowercased(url), "proposal"@) {
        "SCP-001"@
    } else {
        number
    }
}

/// The entry that a link makes, if it is not passed over. `crumb` is the last
/// breadcrumb of the page that `breadcrumb_page` names, if it has one.
pub open spec fn entry_of(
    url: Seq<char>,
    text: Seq<char>,
    catalog: Seq<SCPInfo>,
    crumb: Option<Seq<char>>,
) -> Option<BacklinksInfoView> {
    if skipped(url, text) {
        None
    } else {
        let first = from_link(url, text, catalog);
        let second = if is_fragment_link(url) {
            with_breadcrumb(first, crumb, catalog)
        } else {
            first
        };
        Some(
            BacklinksInfoView {
                fragment: is_fragment_link(url),
                name: second.1,
                actual_number: numbered(second.0, second.1, url),
                url: SITE@ + url,
            },
        )
    }
}

fn trimmed_text(text: &str) -> (r: String)
    ensures
        r@ == trim(text@),
{
    let v = chars_of(text);
    let (a, b) = trim_bounds(&v, 0, v.len());
    assert(v@.subrange(0, v@.len() as int) == v@);
    string_of(&v, a, b)
}

fn has_fragment_marker(url: &str) -> (r: bool)
    ensures
        r == is_fragment_link(url@),
{
    let v = chars_of(url);
    let marker = chars_of("fragment:");
    contains_seq(&v, &marker)
}

/// Whether the link is passed over.
pub fn is_skipped(url: &str, text: &str) -> (r: bool)
    ensures
        r == skipped(url@, text@),
{
    is_excluded(url) || is_excluded(trimmed_text(text).as_str())
}

/// The address of the page whose breadcrumb must be read before the link
/// becomes an entry: that of the fragment, rendered bare. `None` where the
/// link is no fragment or is passed over.
pub fn breadcrumb_page(url: &str, text: &str) -> (r: Option<String>)
    ensures
        opt_view(r) == if is_fragment_link(url@) && !skipped(url@, text@) {
            Some(SITE@ + url@ + "/norender/true"@)
        } else {
            None
        },
{
    if has_fragment_marker(url) && !is_skipped(url, text) {
        Some(String::from_str(SITE).concat(url).concat("/norender/true"))
    } else {
        None
    }
}

fn name_by(group: Option<String>, catalog: &[SCPInfo], otherwise: (String, String)) -> (r: (
    String,
    String,
))
    ensures
        (r.0@, r.1@) == named_by(opt_view(group), catalog@, (otherwise.0@, otherwise.1@)),
{
    match number_from_group(group) {
        Some(n) => {
            let number = format_number(n);
            let name = get_scp_name(catalog, number.as_str());
            (number, name)
        },
        None => otherwise,
    }
}

fn speaks_of_proposal(t: &str) -> (r: bool)
    ensures
        r == contains(lowercased(t@), "proposal"@),
{
    let lower = chars_of(to_lowercase(t).as_str());
    let word = chars_of("proposal");
    contains_seq(&lower, &word)
}

/// Turns a link of a listing into an entry of the feed.
pub fn link_entry(url: &str, text: &str, catalog: &[SCPInfo], breadcrumb: Option<&str>) -> (r:
    Option<BacklinksInfo>)
    ensures
        match r {
            Some(e) => entry_of(url@, text@, catalog@, crate::assemble::name_view(breadcrumb))
                == Some(e@),
            None => entry_of(url@, text@, catalog@, crate::assemble::name_view(breadcrumb))
                is None,
        },
{
    if is_skipped(url, text) {
        return None;
    }
    let fragment = has_fragment_marker(url);
    let name = remove_matches(PATH_NOTE, trimmed_text(text).as_str());
    let first = if has_match(SCP_NUM, url) && !fragment {
        name_by(find_group(SCP_NUM, url), catalog, (String::new(), name))
    } else if name.as_str().as_bytes().len() <= 1 {
        (String::new(), name_from_url(url))
    } else {
        (String::new(), name)
    };
    let second = if fragment {
        match breadcrumb {
            None => first,
            Some(text) => if has_match(SCP_NUM, text) {
                name_by(find_group(SCP_NUM, text), catalog, first)
            } else {
                (first.0, String::from_str(text))
            },
        }
    } else {
        first
    };
    let (number, name) = second;
    let actual_number = if speaks_of_proposal(name.as_str()) || speaks_of_proposal(url) {
        String::from_str("SCP-001")
    } else {
        number
    };
    Some(
        BacklinksInfo {
            fragment,
            name,
            actual_number,
            url: String::from_str(SITE).concat(url),
        },
    )
}

} // verus!
