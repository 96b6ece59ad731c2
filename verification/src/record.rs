//! The records that the harvest reads and writes.

use crate::chars::str_eq;
use crate::sort_json::SortableField;
use std::borrow::Cow;
use vstd::prelude::*;
use vstd::string::*;

verus! {

/// The page layout that a record was read from.
#[derive(Clone, Copy, Debug, PartialEq, Eq, Structural)]
pub enum Strategy {
    Bar,
    HybridBar,
    FlopsHeader,
    AimHeader,
    HeuristicText,
}

impl Strategy {
    /// The name under which the layout is written into a dataset.
    pub open spec fn label_text(self) -> Seq<char> {
        match self {
            Strategy::Bar => "ACS Bar"@,
            Strategy::HybridBar => "ACS Hybrid Bar"@,
            Strategy::FlopsHeader => "Flops Header"@,
            Strategy::AimHeader => "AIM Header"@,
            Strategy::HeuristicText => "Backup"@,
        }
    }

    /// The layout written as `label`, if there is one.
    pub open spec fn of_label(label: Seq<char>) -> Option<Strategy> {
        if label == "ACS Bar"@ {
            Some(Strategy::Bar)
        } else if label == "ACS Hybrid Bar"@ {
            Some(Strategy::HybridBar)
        } else if label == "Flops Header"@ {
            Some(Strategy::FlopsHeader)
        } else if label == "AIM Header"@ {
            Some(Strategy::AimHeader)
        } else if label == "Backup"@ {
            Some(Strategy::HeuristicText)
        } else {
            None
        }
    }

    /// The name under which the layout is written into a dataset.
    pub fn label(self) -> (r: &'static str)
        ensures
            r@ == self.label_text(),
    {
        match self {
            Strategy::Bar => "ACS Bar",
            Strategy::HybridBar => "ACS Hybrid Bar",
            Strategy::FlopsHeader => "Flops Header",
            Strategy::AimHeader => "AIM Header",
            Strategy::HeuristicText => "Backup",
        }
    }

    /// The layout written as `label`, if there is one.
    pub fn from_label(label: &str) -> (r: Option<Strategy>)
        ensures
            r == Strategy::of_label(label@),
    {
        if str_eq(label, "ACS Bar") {
            Some(Strategy::Bar)
        } else if str_eq(label, "ACS Hybrid Bar") {
            Some(Strategy::HybridBar)
        } else if str_eq(label, "Flops Header") {
            Some(Strategy::FlopsHeader)
        } else if str_eq(label, "AIM Header") {
            Some(Strategy::AimHeader)
        } else if str_eq(label, "Backup") {
            Some(Strategy::HeuristicText)
        } else {
            None
        }
    }

    /// Every layout is read back from its own label.
    pub proof fn lemma_label_round_trip(self)
        ensures
            Strategy::of_label(self.label_text()) == Some(self),
    {
        reveal_strlit("ACS Bar");
        reveal_strlit("ACS Hybrid Bar");
        reveal_strlit("Flops Header");
        reveal_strlit("AIM Header");
        reveal_strlit("Backup");
        assert("ACS Bar"@.len() == 7);
        assert("ACS Hybrid Bar"@.len() == 14);
        assert("Flops Header"@.len() == 12);
        assert("AIM Header"@.len() == 10);
        assert("Backup"@.len() == 6);
        assert("ACS Bar"@[0] == 'A' && "Backup"@[0] == 'B' && "Flops Header"@[0] == 'F');
        assert("ACS Hybrid Bar"@[1] == 'C' && "AIM Header"@[1] == 'I');
    }
}

/// The classification fields that every layout yields.
#[derive(Clone, Debug, PartialEq, Eq)]
pub struct SharedAcs {
    pub contain: String,
    pub secondary: String,
    pub disrupt: String,
    pub scraper: Strategy,
}

/// What a `SharedAcs` holds.
pub struct SharedAcsView {
    pub contain: Seq<char>,
    pub secondary: Seq<char>,
    pub disrupt: Seq<char>,
    pub scraper: Strategy,
}

impl View for SharedAcs {
    type V = SharedAcsView;

    open spec fn view(&self) -> SharedAcsView {
        SharedAcsView {
            contain: self.contain@,
            secondary: self.secondary@,
            disrupt: self.disrupt@,
            scraper: self.scraper,
        }
    }
}

impl SharedAcsView {
    /// The value of the shared field called `field`, if there is such a field.
    pub open spec fn shared_field(self, field: Seq<char>) -> Option<Seq<char>> {
        if field == "contain"@ {
            Some(self.contain)
        } else if field == "secondary"@ {
            Some(self.secondary)
        } else if field == "disrupt"@ {
            Some(self.disrupt)
        } else if field == "scraper"@ {
            Some(self.scraper.label_text())
        } else {
            None
        }
    }
}

/// The view of an optional borrowed or owned string.
pub open spec fn cow_view(c: Option<Cow<'_, str>>) -> Option<Seq<char>> {
    match c {
        Some(c) => Some(c@),
        None => None,
    }
}

impl SharedAcs {
    /// The shared field called `field`, if there is such a field.
    pub fn get_shared_field(&self, field: &str) -> (r: Option<Cow<'_, str>>)
        ensures
            cow_view(r) == self@.shared_field(field@),
    {
        if str_eq(field, "contain") {
            Some(Cow::Borrowed(self.contain.as_str()))
        } else if str_eq(field, "secondary") {
            Some(Cow::Borrowed(self.secondary.as_str()))
        } else if str_eq(field, "disrupt") {
            Some(Cow::Borrowed(self.disrupt.as_str()))
        } else if str_eq(field, "scraper") {
            Some(Cow::Borrowed(self.scraper.label()))
        } else {
            None
        }
    }
}

/// What one layout yields, before it is brought into the shape of a record.
#[derive(Clone, Debug, PartialEq, Eq)]
pub enum RawAcs {
    Bar { shared: SharedAcs, clearance: String, clearance_text: String, risk: String },
    Flops { shared: SharedAcs, clearance: String, clearance_text: String },
    Aim { shared: SharedAcs, clearance: String },
    Backup { shared: SharedAcs, risk: String },
}

/// What a `RawAcs` holds.
pub enum RawAcsView {
    Bar { shared: SharedAcsView, clearance: Seq<char>, clearance_text: Seq<char>, risk: Seq<char> },
    Flops { shared: SharedAcsView, clearance: Seq<char>, clearance_text: Seq<char> },
    Aim { shared: SharedAcsView, clearance: Seq<char> },
    Backup { shared: SharedAcsView, risk: Seq<char> },
}

impl View for RawAcs {
    type V = RawAcsView;

    open spec fn view(&self) -> RawAcsView {
        match self {
            RawAcs::Bar { shared, clearance, clearance_text, risk } => RawAcsView::Bar {
                shared: shared@,
                clearance: clearance@,
                clearance_text: clearance_text@,
                risk: risk@,
            },
            RawAcs::Flops { shared, clearance, clearance_text } => RawAcsView::Flops {
                shared: shared@,
                clearance: clearance@,
                clearance_text: clearance_text@,
            },
            RawAcs::Aim { shared, clearance } => RawAcsView::Aim {
                shared: shared@,
                clearance: clearance@,
            },
            RawAcs::Backup { shared, risk } => RawAcsView::Backup { shared: shared@, risk: risk@ },
        }
    }
}

impl RawAcsView {
    /// The fields that every layout yields.
    pub open spec fn shared(self) -> SharedAcsView {
        match self {
            RawAcsView::Bar { shared, .. } => shared,
            RawAcsView::Flops { shared, .. } => shared,
            RawAcsView::Aim { shared, .. } => shared,
            RawAcsView::Backup { shared, .. } => shared,
        }
    }

    /// The clearance level; empty where the layout has none.
    pub open spec fn clearance(self) -> Seq<char> {
        match self {
            RawAcsView::Bar { clearance, .. } => clearance,
            RawAcsView::Flops { clearance, .. } => clearance,
            RawAcsView::Aim { clearance, .. } => clearance,
            RawAcsView::Backup { .. } => Seq::empty(),
        }
    }

    /// The clearance label; empty where the layout has none.
    pub open spec fn clearance_text(self) -> Seq<char> {
        match self {
            RawAcsView::Bar { clearance_text, .. } => clearance_text,
            RawAcsView::Flops { clearance_text, .. } => clearance_text,
            _ => Seq::empty(),
        }
    }

    /// The risk class; empty where the layout has none.
    pub open spec fn risk(self) -> Seq<char> {
        match self {
            RawAcsView::Bar { risk, .. } => risk,
            RawAcsView::Backup { risk, .. } => risk,
            _ => Seq::empty(),
        }
    }
}

/// One record of the dataset.
#[derive(Clone, Debug, PartialEq, Eq)]
pub struct Acs {
    pub name: String,
    pub actual_number: String,
    pub display_number: String,
    pub clearance: String,
    pub clearance_text: String,
    pub contain: String,
    pub secondary: String,
    pub disrupt: String,
    pub risk: String,
    pub url: String,
    pub fragment: bool,
    pub scraper: Strategy,
}

/// What an `Acs` holds.
pub struct AcsView {
    pub name: Seq<char>,
    pub actual_number: Seq<char>,
    pub display_number: Seq<char>,
    pub clearance: Seq<char>,
    pub clearance_text: Seq<char>,
    pub contain: Seq<char>,
    pub secondary: Seq<char>,
    pub disrupt: Seq<char>,
    pub risk: Seq<char>,
    pub url: Seq<char>,
    pub fragment: bool,
    pub scraper: Strategy,
}

impl View for Acs {
    type V = AcsView;

    open spec fn view(&self) -> AcsView {
        AcsView {
            name: self.name@,
            actual_number: self.actual_number@,
            display_number: self.display_number@,
            clearance: self.clearance@,
            clearance_text: self.clearance_text@,
            contain: self.contain@,
            secondary: self.secondary@,
            disrupt: self.disrupt@,
            risk: self.risk@,
            url: self.url@,
            fragment: self.fragment,
            scraper: self.scraper,
        }
    }
}

/// One entry of the catalogue of names.
#[derive(Clone, Debug, PartialEq, Eq)]
pub struct SCPInfo {
    pub actual_number: String,
    pub display_number: String,
    pub name: String,
    pub url: String,
}

/// What an `SCPInfo` holds.
pub struct SCPInfoView {
    pub actual_number: Seq<char>,
    pub display_number: Seq<char>,
    pub name: Seq<char>,
    pub url: Seq<char>,
}

impl View for SCPInfo {
    type V = SCPInfoView;

    open spec fn view(&self) -> SCPInfoView {
        SCPInfoView {
            actual_number: self.actual_number@,
            display_number: self.display_number@,
            name: self.name@,
            url: self.url@,
        }
    }
}

/// One entry of the discovery feed: a page that refers to a layout component.
#[derive(Clone, Debug, PartialEq, Eq)]
pub struct BacklinksInfo {
    pub fragment: bool,
    pub name: String,
    pub actual_number: String,
    pub url: String,
}

/// What a `BacklinksInfo` holds.
pub struct BacklinksInfoView {
    pub fragment: bool,
    pub name: Seq<char>,
    pub actual_number: Seq<char>,
    pub url: Seq<char>,
}

impl View for BacklinksInfo {
    type V = BacklinksInfoView;

    open spec fn view(&self) -> BacklinksInfoView {
        BacklinksInfoView {
            fragment: self.fragment,
            name: self.name@,
            actual_number: self.actual_number@,
            url: self.url@,
        }
    }
}

/// The text of a truth value, as a dataset writes it.
pub open spec fn bool_text(b: bool) -> Seq<char> {
    if b {
        "true"@
    } else {
        "false"@
    }
}

impl AcsView {
    /// The value of the field called `field`, if there is such a field.
    pub open spec fn field(self, field: Seq<char>) -> Option<Seq<char>> {
        if field == "name"@ {
            Some(self.name)
        } else if field == "actual_number"@ {
            Some(self.actual_number)
        } else if field == "display_number"@ {
            Some(self.display_number)
        } else if field == "clearance"@ {
            Some(self.clearance)
        } else if field == "clearance_text"@ {
            Some(self.clearance_text)
        } else if field == "contain"@ {
            Some(self.contain)
        } else if field == "secondary"@ {
            Some(self.secondary)
        } else if field == "disrupt"@ {
            Some(self.disrupt)
        } else if field == "risk"@ {
            Some(self.risk)
        } else if field == "url"@ {
            Some(self.url)
        } else if field == "fragment"@ {
            Some(bool_text(self.fragment))
        } else if field == "scraper"@ {
            Some(self.scraper.label_text())
        } else {
            None
        }
    }
}

impl Acs {
    /// The field called `field`, if the record has one.
    pub fn lookup(&self, field: &str) -> (r: Option<Cow<'_, str>>)
        ensures
            cow_view(r) == self@.field(field@),
    {
        if str_eq(field, "name") {
            Some(Cow::Borrowed(self.name.as_str()))
        } else if str_eq(field, "actual_number") {
            Some(Cow::Borrowed(self.actual_number.as_str()))
        } else if str_eq(field, "display_number") {
            Some(Cow::Borrowed(self.display_number.as_str()))
        } else if str_eq(field, "clearance") {
            Some(Cow::Borrowed(self.clearance.as_str()))
        } else if str_eq(field, "clearance_text") {
            Some(Cow::Borrowed(self.clearance_text.as_str()))
        } else if str_eq(field, "contain") {
            Some(Cow::Borrowed(self.contain.as_str()))
        } else if str_eq(field, "secondary") {
            Some(Cow::Borrowed(self.secondary.as_str()))
        } else if str_eq(field, "disrupt") {
            Some(Cow::Borrowed(self.disrupt.as_str()))
        } else if str_eq(field, "risk") {
            Some(Cow::Borrowed(self.risk.as_str()))
        } else if str_eq(field, "url") {
            Some(Cow::Borrowed(self.url.as_str()))
        } else if str_eq(field, "fragment") {
            if self.fragment {
                Some(Cow::Borrowed("true"))
            } else {
                Some(Cow::Borrowed("false"))
            }
        } else if str_eq(field, "scraper") {
            Some(Cow::Borrowed(self.scraper.label()))
        } else {
            None
        }
    }
}

impl SortableField for Acs {
    open spec fn has_field(&self, field: Seq<char>) -> bool {
        self@.field(field) is Some
    }

    open spec fn field_value(&self, field: Seq<char>) -> Seq<char> {
        match self@.field(field) {
            Some(v) => v,
            None => Seq::empty(),
        }
    }

    fn knows_field(&self, field: &str) -> (b: bool) {
        self.lookup(field).is_some()
    }

    fn get_field(&self, field: &str) -> (r: Cow<'_, str>) {
        match self.lookup(field) {
            Some(c) => c,
            None => Cow::Borrowed(""),
        }
    }
}

impl RawAcsView {
    /// The value of the field called `field`, if the layout yields such a
    /// field.
    pub open spec fn field(self, field: Seq<char>) -> Option<Seq<char>> {
        if self.shared().shared_field(field) is Some {
            self.shared().shared_field(field)
        } else {
            match self {
                RawAcsView::Bar { clearance, clearance_text, risk, .. } => {
                    if field == "clearance"@ {
                        Some(clearance)
                    } else if field == "clearance_text"@ {
                        Some(clearance_text)
                    } else if field == "risk"@ {
                        Some(risk)
                    } else {
                        None
                    }
                },
                RawAcsView::Flops { clearance, clearance_text, .. } => {
                    if field == "clearance"@ {
                        Some(clearance)
                    } else if field == "clearance_text"@ {
                        Some(clearance_text)
                    } else {
                        None
                    }
                },
                RawAcsView::Aim { clearance, .. } => {
                    if field == "clearance"@ {
                        Some(clearance)
                    } else {
                        None
                    }
                },
                RawAcsView::Backup { risk, .. } => {
                    if field == "risk"@ {
                        Some(risk)
                    } else {
                        None
                    }
                },
            }
        }
    }
}

impl RawAcs {
    /// The field called `field`, if the layout yields one.
    pub fn lookup(&self, field: &str) -> (r: Option<Cow<'_, str>>)
        ensures
            cow_view(r) == self@.field(field@),
    {
        match self {
            RawAcs::Bar { shared, clearance, clearance_text, risk } => {
                let common = shared.get_shared_field(field);
                if common.is_some() {
                    common
                } else if str_eq(field, "clearance") {
                    Some(Cow::Borrowed(clearance.as_str()))
                } else if str_eq(field, "clearance_text") {
                    Some(Cow::Borrowed(clearance_text.as_str()))
                } else if str_eq(field, "risk") {
                    Some(Cow::Borrowed(risk.as_str()))
                } else {
                    None
                }
            },
            RawAcs::Flops { shared, clearance, clearance_text } => {
                let common = shared.get_shared_field(field);
                if common.is_some() {
                    common
                } else if str_eq(field, "clearance") {
                    Some(Cow::Borrowed(clearance.as_str()))
                } else if str_eq(field, "clearance_text") {
                    Some(Cow::Borrowed(clearance_text.as_str()))
                } else {
                    None
                }
            },
            RawAcs::Aim { shared, clearance } => {
                let common = shared.get_shared_field(field);
                if common.is_some() {
                    common
                } else if str_eq(field, "clearance") {
                    Some(Cow::Borrowed(clearance.as_str()))
                } else {
                    None
                }
            },
            RawAcs::Backup { shared, risk } => {
                let common = shared.get_shared_field(field);
                if common.is_some() {
                    common
                } else if str_eq(field, "risk") {
                    Some(Cow::Borrowed(risk.as_str()))
                } else {
                    None
                }
            },
        }
    }
}

impl SortableField for RawAcs {
    open spec fn has_field(&self, field: Seq<char>) -> bool {
        self@.field(field) is Some
    }

    open spec fn field_value(&self, field: Seq<char>) -> Seq<char> {
        match self@.field(field) {
            Some(v) => v,
            None => Seq::empty(),
        }
    }

    fn knows_field(&self, field: &str) -> (b: bool) {
        self.lookup(field).is_some()
    }

    fn get_field(&self, field: &str) -> (r: Cow<'_, str>) {
        match self.lookup(field) {
            Some(c) => c,
            None => Cow::Borrowed(""),
        }
    }
}

impl SCPInfoView {
    /// The value of the field called `field`, if there is such a field.
    pub open spec fn field(self, field: Seq<char>) -> Option<Seq<char>> {
        if field == "actual_number"@ {
            Some(self.actual_number)
        } else if field == "display_number"@ {
            Some(self.display_number)
        } else if field == "name"@ {
            Some(self.name)
        } else if field == "url"@ {
            Some(self.url)
        } else {
            None
        }
    }
}

impl SCPInfo {
    /// The field called `field`, if the entry has one.
    pub fn lookup(&self, field: &str) -> (r: Option<Cow<'_, str>>)
        ensures
            cow_view(r) == self@.field(field@),
    {
        if str_eq(field, "actual_number") {
            Some(Cow::Borrowed(self.actual_number.as_str()))
        } else if str_eq(field, "display_number") {
            Some(Cow::Borrowed(self.display_number.as_str()))
        } else if str_eq(field, "name") {
            Some(Cow::Borrowed(self.name.as_str()))
        } else if str_eq(field, "url") {
            Some(Cow::Borrowed(self.url.as_str()))
        } else {
            None
        }
    }
}

impl SortableField for SCPInfo {
    open spec fn has_field(&self, field: Seq<char>) -> bool {
        self@.field(field) is Some
    }

    open spec fn field_value(&self, field: Seq<char>) -> Seq<char> {
        match self@.field(field) {
            Some(v) => v,
            None => Seq::empty(),
        }
    }

    fn knows_field(&self, field: &str) -> (b: bool) {
        self.lookup(field).is_some()
    }

    fn get_field(&self, field: &str) -> (r: Cow<'_, str>) {
        match self.lookup(field) {
            Some(c) => c,
            None => Cow::Borrowed(""),
        }
    }
}

} // verus!
