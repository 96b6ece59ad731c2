//! The catalogue of names: the entries that the series pages list.

use crate::backlinks::SITE;
use crate::chars::{
    chars_of, contains, contains_char, contains_seq, find_first, has_at, index_of, matches_at,
    str_eq, string_of, to_uppercase, uppercased,
};
use crate::ident::{group_identifier, identifier_in};
use crate::page::or_empty;
use crate::pattern::{first_group, opt_view};
use crate::record::{SCPInfo, SCPInfoView};
use crate::sort_json::{all_have_field, sort, sorted_by, SortableField};
use vstd::prelude::*;
use vstd::string::*;

verus! {

/// The items of the lists that follow a heading of the table of contents.
pub const LI_SELECTOR: &'static str = "[id*='toc']:not([id='toc0']) + ul li";

/// The links in an item.
pub const LINK_SELECTOR: &'static str = "a";

/// An identifier with three or four digits, anywhere in a text.
pub const SCP_RGX: &'static str = "(?i)SCP-(\\d{3,4})";

/// Three or four digits after a hyphen, anywhere in a text.
pub const DASH_RGX: &'static str = "-(\\d{3,4})";

/// The first link in an item of a list.
#[derive(Clone, Debug, PartialEq, Eq)]
pub struct ListedLink {
    /// Its first attribute asked for; here, its class.
    pub class: Option<String>,
    /// Its second attribute asked for; here, its address.
    pub href: Option<String>,
    /// What stands inside it, as HTML.
    pub html: String,
}

/// What a `ListedLink` holds.
pub struct ListedLinkView {
    pub class: Option<Seq<char>>,
    pub href: Option<Seq<char>>,
    pub html: Seq<char>,
}

impl View for ListedLink {
    type V = ListedLinkView;

    open spec fn view(&self) -> ListedLinkView {
        ListedLinkView { class: opt_view(self.class), href: opt_view(self.href), html: self.html@ }
    }
}

/// An item of a list.
#[derive(Clone, Debug, PartialEq, Eq)]
pub struct ListedItem {
    /// What stands inside it, as HTML.
    pub html: String,
    /// Its first link, if it has one.
    pub link: Option<ListedLink>,
}

/// What a `ListedItem` holds.
pub struct ListedItemView {
    pub html: Seq<char>,
    pub link: Option<ListedLinkView>,
}

impl View for ListedItem {
    type V = ListedItemView;

    open spec fn view(&self) -> ListedItemView {
        ListedItemView {
            html: self.html@,
            link: match self.link {
                Some(l) => Some(l@),
                None => None,
            },
        }
    }
}

/// The views of a list of items.
pub open spec fn items_view(items: Seq<ListedItem>) -> Seq<ListedItemView> {
    Seq::new(items.len(), |i: int| items[i]@)
}

/// For each element of the document built from `html` that the selector
/// `items` matches, in the order in which `Html::select` yields them, which
/// is the order in which the parser made the nodes: its inner HTML and, of
/// the first element below it that the selector `links` matches, the
/// attributes `first` and `second` and the inner HTML. Empty where either
/// selector is not valid.
pub uninterp spec fn listed_items(
    html: Seq<char>,
    items: Seq<char>,
    links: Seq<char>,
    first: Seq<char>,
    second: Seq<char>,
) -> Seq<ListedItemView>;

/// Parses `html` with `scraper::Html::parse_document` and both selectors with
/// `Selector::parse`; for each element that `Html::select` gives, reads
/// `ElementRef::inner_html` and, of the first element of `ElementRef::select`,
/// two attributes with `Element::attr` and `ElementRef::inner_html`. Trusted:
/// the result is what `listed_items` names, a function of the five texts
/// alone.
#[verifier::external_body]
pub(crate) fn select_items(html: &str, items: &str, links: &str, first: &str, second: &str) -> (r:
    Vec<ListedItem>)
    ensures
        items_view(r@) == listed_items(html@, items@, links@, first@, second@),
{
    let (Ok(items), Ok(links)) = (scraper::Selector::parse(items), scraper::Selector::parse(links))
    else {
        return Vec::new();
    };
    let link = |a: scraper::ElementRef| ListedLink {
        class: a.value().attr(first).map(String::from),
        href: a.value().attr(second).map(String::from),
        html: a.inner_html(),
    };
    scraper::Html::parse_document(html).select(&items).map(
        |li| ListedItem { html: li.inner_html(), link: li.select(&links).next().map(link) },
    ).collect()
}

/// The identifier that a link names: the one in its address where the
/// address holds the prefix; else the one in its text where the text begins
/// with the prefix; else the digits after a hyphen of the address. Empty
/// where none of these gives a number.
pub open spec fn number_of_link(href: Seq<char>, html: Seq<char>) -> Seq<char> {
    if contains(uppercased(href), "SCP-"@) {
        group_identifier(first_group(SCP_RGX@, href))
    } else if has_at(uppercased(html), "SCP-"@, 0) {
        group_identifier(first_group(SCP_RGX@, html))
    } else if href.contains('-') {
        group_identifier(first_group(DASH_RGX@, href))
    } else {
        Seq::empty()
    }
}

/// The name in an item: what follows the first " - "; empty where there is
/// none.
pub open spec fn name_of_item(html: Seq<char>) -> Seq<char> {
    if contains(html, " - "@) {
        html.skip(index_of(html, " - "@) + 3)
    } else {
        Seq::empty()
    }
}

/// The full address of a page: the address of a link that names the site,
/// else the site and the path.
pub open spec fn address_of(href: Seq<char>) -> Seq<char> {
    if contains(href, "scp-wiki"@) {
        href
    } else {
        SITE@ + href
    }
}

/// The entry that an item of a series page makes: none where it has no link,
/// or its link leads to a page that does not exist yet.
pub open spec fn entry_for(item: ListedItemView) -> Option<SCPInfoView> {
    match item.link {
        None => None,
        Some(link) => if link.class == Some("newpage"@) {
            None
        } else {
            let href = or_empty(link.href);
            Some(
                SCPInfoView {
                    actual_number: number_of_link(href, link.html),
                    display_number: link.html,
                    name: name_of_item(item.html),
                    url: address_of(href),
                },
            )
        },
    }
}

/// The entries that a list of items makes, in their order.
pub open spec fn entries_for(items: Seq<ListedItemView>) -> Seq<SCPInfoView>
    decreases items.len(),
{
    if items.len() == 0 {
        Seq::empty()
    } else {
        let rest = entries_for(items.drop_last());
        match entry_for(items.last()) {
            Some(e) => rest.push(e),
            None => rest,
        }
    }
}

/// The views of a list of entries.
pub open spec fn infos_view(entries: Seq<SCPInfo>) -> Seq<SCPInfoView> {
    Seq::new(entries.len(), |i: int| entries[i]@)
}

fn has(text: &str, pat: &str) -> (r: bool)
    ensures
        r == contains(text@, pat@),
{
    let v = chars_of(text);
    let p = chars_of(pat);
    contains_seq(&v, &p)
}

fn begins_with(text: &str, pat: &str) -> (r: bool)
    ensures
        r == has_at(text@, pat@, 0),
{
    let v = chars_of(text);
    let p = chars_of(pat);
    matches_at(&v, &p, 0)
}

/// The identifier that a link with the address `href` and the content `html`
/// names; empty where it names none.
pub fn link_number(href: &str, html: &str) -> (r: String)
    ensures
        r@ == number_of_link(href@, html@),
{
    if has(to_uppercase(href).as_str(), "SCP-") {
        identifier_in(href, SCP_RGX)
    } else if begins_with(to_uppercase(html).as_str(), "SCP-") {
        identifier_in(html, SCP_RGX)
    } else if contains_char(&chars_of(href), '-') {
        identifier_in(href, DASH_RGX)
    } else {
        String::new()
    }
}

/// The name in an item: what follows the first " - ".
pub fn item_name(html: &str) -> (r: String)
    ensures
        r@ == name_of_item(html@),
{
    let v = chars_of(html);
    let dash = chars_of(" - ");
    proof {
        reveal_strlit(" - ");
        assert(dash@.len() == 3);
    }
    match find_first(&v, &dash) {
        Some(i) => {
            assert(has_at(v@, dash@, i as int));
            assert(i + 3 <= v.len());
            assert(v@.skip(i + 3) == v@.subrange(i + 3, v@.len() as int));
            string_of(&v, i + 3, v.len())
        },
        None => String::new(),
    }
}

/// The full address of the page that `href` leads to.
pub fn page_address(href: &str) -> (r: String)
    ensures
        r@ == address_of(href@),
{
    if has(href, "scp-wiki") {
        String::from_str(href)
    } else {
        String::from_str(SITE).concat(href)
    }
}

fn is_new_page(class: &Option<String>) -> (r: bool)
    ensures
        r == (opt_view(*class) == Some("newpage"@)),
{
    match class {
        Some(c) => str_eq(c.as_str(), "newpage"),
        None => false,
    }
}

/// The entry that an item of a series page makes.
pub fn catalog_entry(item: &ListedItem) -> (r: Option<SCPInfo>)
    ensures
        match r {
            Some(e) => entry_for(item@) == Some(e@),
            None => entry_for(item@) is None,
        },
{
    match &item.link {
        None => None,
        Some(link) => {
            if is_new_page(&link.class) {
                return None;
            }
            let href = match &link.href {
                Some(h) => h.clone(),
                None => String::new(),
            };
            Some(
                SCPInfo {
                    actual_number: link_number(href.as_str(), link.html.as_str()),
                    display_number: link.html.clone(),
                    name: item_name(item.html.as_str()),
                    url: page_address(href.as_str()),
                },
            )
        },
    }
}

/// Adds to `catalog` the entries that the series page `html` lists.
pub fn add_series_page(catalog: &mut Vec<SCPInfo>, html: &str)
    ensures
        infos_view(final(catalog)@) == infos_view(old(catalog)@) + entries_for(
            listed_items(html@, LI_SELECTOR@, LINK_SELECTOR@, "class"@, "href"@),
        ),
{
    let items = select_items(html, LI_SELECTOR, LINK_SELECTOR, "class", "href");
    let ghost views = items_view(items@);
    let ghost before = infos_view(catalog@);
    let mut i: usize = 0;
    assert(views.take(0) =~= Seq::empty());
    assert(infos_view(catalog@) =~= before + entries_for(views.take(0)));
    while i < items.len()
        invariant
            i <= items.len(),
            views == items_view(items@),
            infos_view(catalog@) == before + entries_for(views.take(i as int)),
        decreases items.len() - i,
    {
        let ghost so_far = catalog@;
        assert(views.take(i + 1).drop_last() == views.take(i as int));
        assert(views.take(i + 1).last() == items@[i as int]@);
        match catalog_entry(&items[i]) {
            Some(e) => {
                catalog.push(e);
                assert(infos_view(catalog@) =~= infos_view(so_far).push(e@));
                assert(infos_view(catalog@) =~= before + entries_for(views.take(i + 1)));
            },
            None => {},
        }
        i += 1;
    }
    assert(views.take(views.len() as int) == views);
}

/// Puts the catalogue in the order of its identifiers.
pub fn finish_catalog(catalog: &mut Vec<SCPInfo>)
    ensures
        sorted_by(old(catalog)@, final(catalog)@, "actual_number"@),
{
    assert(all_have_field(catalog@, "actual_number"@)) by {
        assert forall|i: int| 0 <= i < catalog@.len() implies (#[trigger] catalog@[i]).has_field(
            "actual_number"@,
        ) by {
            assert(catalog@[i]@.field("actual_number"@) is Some);
        }
    }
    sort(catalog.as_mut_slice(), "actual_number");
}

} // verus!
