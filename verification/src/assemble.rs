//! Assembly of a record from what a page yields, the catalogue of names and
//! what the caller knows of the page.

use crate::chars::{
    chars_of, contains, contains_seq, eq_ignore_ascii_case, eq_ignore_case, str_eq,
};
use crate::extract::{extract, extracted};
use crate::page::or_empty;
use crate::pattern::{find_match, leftmost_match, opt_view};
use crate::record::{Acs, AcsView, RawAcs, RawAcsView, SCPInfo};
use crate::text::{clean, clean_text};
use vstd::prelude::*;
use vstd::string::*;

verus! {

/// The record that a raw record becomes: the caller's values for what the
/// page does not say, and an empty field for what the layout does not yield.
pub open spec fn vanilla_of(
    raw: RawAcsView,
    name: Seq<char>,
    actual_number: Seq<char>,
    display_number: Seq<char>,
    url: Seq<char>,
    fragment: bool,
) -> AcsView {
    AcsView {
        name,
        actual_number,
        display_number,
        clearance: raw.clearance(),
        clearance_text: raw.clearance_text(),
        contain: raw.shared().contain,
        secondary: raw.shared().secondary,
        disrupt: raw.shared().disrupt,
        risk: raw.risk(),
        url,
        fragment,
        scraper: raw.shared().scraper,
    }
}

/// Brings a raw record into the shape of a record of the dataset.
pub fn convert_to_vanilla(
    acs: RawAcs,
    name: &str,
    actual_number: &str,
    display_number: &str,
    url: &str,
    fragment: bool,
) -> (r: Acs)
    ensures
        r@ == vanilla_of(acs@, name@, actual_number@, display_number@, url@, fragment),
{
    let name = String::from_str(name);
    let actual_number = String::from_str(actual_number);
    let display_number = String::from_str(display_number);
    let url = String::from_str(url);
    match acs {
        RawAcs::Bar { shared, clearance, clearance_text, risk } => Acs {
            name,
            actual_number,
            display_number,
            clearance,
            clearance_text,
            contain: shared.contain,
            secondary: shared.secondary,
            disrupt: shared.disrupt,
            risk,
            url,
            fragment,
            scraper: shared.scraper,
        },
        RawAcs::Flops { shared, clearance, clearance_text } => Acs {
            name,
            actual_number,
            display_number,
            clearance,
            clearance_text,
            contain: shared.contain,
            secondary: shared.secondary,
            disrupt: shared.disrupt,
            risk: String::new(),
            url,
            fragment,
            scraper: shared.scraper,
        },
        RawAcs::Aim { shared, clearance } => Acs {
            name,
            actual_number,
            display_number,
            clearance,
            clearance_text: String::new(),
            contain: shared.contain,
            secondary: shared.secondary,
            disrupt: shared.disrupt,
            risk: String::new(),
            url,
            fragment,
            scraper: shared.scraper,
        },
        RawAcs::Backup { shared, risk } => Acs {
            name,
            actual_number,
            display_number,
            clearance: String::new(),
            clearance_text: String::new(),
            contain: shared.contain,
            secondary: shared.secondary,
            disrupt: shared.disrupt,
            risk,
            url,
            fragment,
            scraper: shared.scraper,
        },
    }
}

/// The label that goes with a clearance level; empty for anything else.
pub open spec fn label_for_level(level: Seq<char>) -> Seq<char> {
    if level == "LEVEL 1"@ {
        "Unrestricted"@
    } else if level == "LEVEL 2"@ {
        "Restricted"@
    } else if level == "LEVEL 3"@ {
        "Confidential"@
    } else if level == "LEVEL 4"@ {
        "Secret"@
    } else if level == "LEVEL 5"@ {
        "Top Secret"@
    } else if level == "LEVEL 6"@ {
        "Cosmic Top Secret "@
    } else {
        Seq::empty()
    }
}

/// The label that goes with a clearance level; empty for anything else.
pub fn level_label(level: &str) -> (r: &'static str)
    ensures
        r@ == label_for_level(level@),
{
    if str_eq(level, "LEVEL 1") {
        "Unrestricted"
    } else if str_eq(level, "LEVEL 2") {
        "Restricted"
    } else if str_eq(level, "LEVEL 3") {
        "Confidential"
    } else if str_eq(level, "LEVEL 4") {
        "Secret"
    } else if str_eq(level, "LEVEL 5") {
        "Top Secret"
    } else if str_eq(level, "LEVEL 6") {
        "Cosmic Top Secret "
    } else {
        proof {
            reveal_strlit("");
        }
        ""
    }
}

/// An identifier within a text: the prefix in any case, then one to four
/// digits.
pub const TITLE_IDENTIFIER: &'static str = "(?i)scp-[0-9]{1,4}";

/// The finished form of a record whose name holds the identifier `found`, or
/// none. The title is authoritative: the identifier found in the name is the
/// record's identifier, and the caller's identifier stays only where the name
/// holds none. A missing clearance label is taken from the clearance level.
/// Every classification field is cleaned.
pub open spec fn created_with(a: AcsView, found: Option<Seq<char>>) -> AcsView {
    AcsView {
        name: a.name,
        actual_number: match found {
            Some(identifier) => identifier,
            None => a.actual_number,
        },
        display_number: a.display_number,
        clearance: clean(a.clearance),
        clearance_text: clean(
            if a.clearance_text.len() == 0 {
                label_for_level(a.clearance)
            } else {
                a.clearance_text
            },
        ),
        contain: clean(a.contain),
        secondary: clean(a.secondary),
        disrupt: clean(a.disrupt),
        risk: clean(a.risk),
        url: a.url,
        fragment: a.fragment,
        scraper: a.scraper,
    }
}

/// The finished form of a record: `created_with` the first identifier that
/// its name holds.
pub open spec fn created(a: AcsView) -> AcsView {
    created_with(a, leftmost_match(TITLE_IDENTIFIER@, a.name))
}

/// Finishes a record, given the identifier found in its name: settles the
/// identifier, fills in a missing clearance label and cleans every
/// classification field.
pub fn create_from_match(acs: Acs, found: Option<String>) -> (r: Acs)
    ensures
        r@ == created_with(acs@, opt_view(found)),
{
    let actual_number = match found {
        Some(identifier) => identifier,
        None => acs.actual_number,
    };
    let clearance_text = if acs.clearance_text.as_str().unicode_len() == 0 {
        clean_text(level_label(acs.clearance.as_str()))
    } else {
        clean_text(acs.clearance_text.as_str())
    };
    Acs {
        name: acs.name,
        actual_number,
        display_number: acs.display_number,
        clearance: clean_text(acs.clearance.as_str()),
        clearance_text,
        contain: clean_text(acs.contain.as_str()),
        secondary: clean_text(acs.secondary.as_str()),
        disrupt: clean_text(acs.disrupt.as_str()),
        risk: clean_text(acs.risk.as_str()),
        url: acs.url,
        fragment: acs.fragment,
        scraper: acs.scraper,
    }
}

/// Finishes a record: looks for an identifier in its name, and goes on as
/// `create_from_match` does.
pub fn create_acs(acs: Acs) -> (r: Acs)
    ensures
        r@ == created(acs@),
{
    let found = find_match(TITLE_IDENTIFIER, acs.name.as_str());
    create_from_match(acs, found)
}

/// The first entry of `catalog` whose identifier is `number`.
pub open spec fn first_entry(catalog: Seq<SCPInfo>, number: Seq<char>) -> Option<SCPInfo>
    decreases catalog.len(),
{
    if catalog.len() == 0 {
        None
    } else if catalog[0].actual_number@ == number {
        Some(catalog[0])
    } else {
        first_entry(catalog.drop_first(), number)
    }
}

/// The name and the display number of the first entry of `catalog` whose
/// identifier is `number`.
pub open spec fn listed_names(catalog: Seq<SCPInfo>, number: Seq<char>) -> Option<
    (Seq<char>, Seq<char>),
> {
    match first_entry(catalog, number) {
        Some(e) => Some((e.name@, e.display_number@)),
        None => None,
    }
}

/// The view of an optional pair of strings.
pub open spec fn pair_view(p: Option<(String, String)>) -> Option<(Seq<char>, Seq<char>)> {
    match p {
        Some((a, b)) => Some((a@, b@)),
        None => None,
    }
}

/// The lookup finds nothing exactly when no entry of the catalogue has the
/// identifier; what it finds is an entry that has it.
pub proof fn lemma_first_entry(catalog: Seq<SCPInfo>, number: Seq<char>)
    ensures
        first_entry(catalog, number) is None <==> forall|i: int|
            0 <= i < catalog.len() ==> (#[trigger] catalog[i]).actual_number@ != number,
        first_entry(catalog, number) matches Some(e) ==> e.actual_number@ == number
            && catalog.contains(e),
    decreases catalog.len(),
{
    if catalog.len() > 0 {
        let rest = catalog.drop_first();
        lemma_first_entry(rest, number);
        if catalog[0].actual_number@ != number {
            if first_entry(rest, number) is None {
                assert forall|i: int| 0 <= i < catalog.len() implies (
                #[trigger] catalog[i]).actual_number@ != number by {
                    if i > 0 {
                        assert(catalog[i] == rest[i - 1]);
                    }
                }
            } else {
                let e = first_entry(rest, number)->0;
                let i = choose|i: int| 0 <= i < rest.len() && rest[i] == e;
                assert(catalog[i + 1] == rest[i]);
            }
        } else {
            assert(catalog[0] == catalog[0]);
        }
    }
}

/// The first entry of the catalogue that has the identifier `actual_number`;
/// `None` exactly where no entry has it.
pub fn find_entry<'a>(catalog: &'a [SCPInfo], actual_number: &str) -> (r: Option<&'a SCPInfo>)
    ensures
        match r {
            Some(e) => first_entry(catalog@, actual_number@) == Some(*e) && e.actual_number@
                == actual_number@ && catalog@.contains(*e),
            None => first_entry(catalog@, actual_number@) is None,
        },
        r is None <==> forall|i: int|
            0 <= i < catalog@.len() ==> (#[trigger] catalog@[i]).actual_number@ != actual_number@,
{
    proof {
        lemma_first_entry(catalog@, actual_number@);
    }
    let mut i: usize = 0;
    assert(catalog@.skip(0) == catalog@);
    while i < catalog.len()
        invariant
            i <= catalog.len(),
            first_entry(catalog@, actual_number@) == first_entry(
                catalog@.skip(i as int),
                actual_number@,
            ),
        decreases catalog.len() - i,
    {
        let ghost rest = catalog@.skip(i as int);
        assert(rest[0] == catalog@[i as int]);
        assert(rest.drop_first() == catalog@.skip(i + 1));
        if str_eq(catalog[i].actual_number.as_str(), actual_number) {
            return Some(&catalog[i]);
        }
        i += 1;
    }
    None
}

/// The name and the display number under which the catalogue lists the
/// identifier `actual_number`.
pub fn get_name_display_number(catalog: &[SCPInfo], actual_number: &str) -> (r: Option<
    (String, String),
>)
    ensures
        pair_view(r) == listed_names(catalog@, actual_number@),
{
    match find_entry(catalog, actual_number) {
        Some(e) => Some((e.name.clone(), e.display_number.clone())),
        None => None,
    }
}

/// The view of an optional string slice.
pub open spec fn name_view(name: Option<&str>) -> Option<Seq<char>> {
    match name {
        Some(n) => Some(n@),
        None => None,
    }
}

/// The catalogue is asked for a name where the caller gave none, the
/// identifier has the prefix, and it is neither of the two reserved entries.
pub open spec fn needs_lookup(number: Seq<char>, name: Option<Seq<char>>) -> bool {
    &&& !eq_ignore_case(number, "scp-000"@)
    &&& !eq_ignore_case(number, "scp-001"@)
    &&& or_empty(name).len() == 0
    &&& (contains(number, "scp-"@) || contains(number, "SCP-"@))
}

/// The name and the display number of a record: those of the catalogue where
/// it is asked and lists the identifier, else the caller's name and no
/// display number.
pub open spec fn resolved(catalog: Seq<SCPInfo>, number: Seq<char>, name: Option<Seq<char>>) -> (
    Seq<char>,
    Seq<char>,
) {
    if needs_lookup(number, name) && listed_names(catalog, number) is Some {
        listed_names(catalog, number)->0
    } else {
        (or_empty(name), Seq::empty())
    }
}

/// The name and the display number of a record, from the catalogue where it
/// is to be asked.
pub fn resolve_name(catalog: &[SCPInfo], actual_number: &str, name: Option<&str>) -> (r: (
    String,
    String,
))
    ensures
        (r.0@, r.1@) == resolved(catalog@, actual_number@, name_view(name)),
{
    let number = chars_of(actual_number);
    let given = match name {
        Some(n) => String::from_str(n),
        None => String::new(),
    };
    let zero = chars_of("scp-000");
    let one = chars_of("scp-001");
    let lower = chars_of("scp-");
    let upper = chars_of("SCP-");
    if !eq_ignore_ascii_case(&number, &zero) && !eq_ignore_ascii_case(&number, &one)
        && given.as_str().unicode_len() == 0 && (contains_seq(&number, &lower) || contains_seq(
        &number,
        &upper,
    )) {
        match get_name_display_number(catalog, actual_number) {
            Some(found) => found,
            None => (given, String::new()),
        }
    } else {
        (given, String::new())
    }
}

/// The view of an optional record.
pub open spec fn acs_view(r: Option<Acs>) -> Option<AcsView> {
    match r {
        Some(r) => Some(r@),
        None => None,
    }
}

/// The record that the page `html` gives for the identifier `number`, if the
/// page yields anything.
pub open spec fn assembled(
    html: Seq<char>,
    catalog: Seq<SCPInfo>,
    number: Seq<char>,
    name: Option<Seq<char>>,
    url: Seq<char>,
    fragment: bool,
) -> Option<AcsView> {
    match extracted(html) {
        Some(raw) => {
            let names = resolved(catalog, number, name);
            Some(created(vanilla_of(raw, names.0, number, names.1, url, fragment)))
        },
        None => None,
    }
}

/// Reads the page `html` and assembles its record.
pub fn assemble(
    html: &str,
    catalog: &[SCPInfo],
    actual_number: &str,
    name: Option<&str>,
    url: &str,
    fragment: bool,
) -> (r: Option<Acs>)
    ensures
        acs_view(r) == assembled(
            html@,
            catalog@,
            actual_number@,
            name_view(name),
            url@,
            fragment,
        ),
{
    match extract(html) {
        Some(raw) => {
            let (name, display_number) = resolve_name(catalog, actual_number, name);
            let record = convert_to_vanilla(
                raw,
                name.as_str(),
                actual_number,
                display_number.as_str(),
                url,
                fragment,
            );
            Some(create_acs(record))
        },
        None => None,
    }
}

} // verus!
