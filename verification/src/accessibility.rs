//! Focused-element inspection: is it safe to type here, and what is selected?
//!
//! Classification is pure: it takes the role strings (macOS Accessibility) or
//! the control-type id (UI Automation) that a platform read produced and says
//! whether a fire may type there.
//!
//! Fail-open, deliberately: `Unknown` is the answer whenever the OS won't say,
//! and only `Secure` and `NotEditable` block a fire.

use crate::text::str_eq;
use vstd::prelude::*;

verus! {

/// What the OS says about the element that currently has keyboard focus.
#[derive(Debug, Clone, Copy, PartialEq, Eq, Structural)]
pub enum FieldKind {
    /// A text field / text area / editable document. Safe to type into.
    Editable,
    /// A password or otherwise secure field. Never type here.
    Secure,
    /// Focus is on something that cannot accept text.
    NotEditable,
    /// The OS didn't tell us enough to decide. Proceed.
    Unknown,
}

impl FieldKind {
    pub open spec fn spec_allows_typing(self) -> bool {
        !(self is Secure || self is NotEditable)
    }

    /// Whether a fire may proceed. Only the two confident negatives block.
    pub fn allows_typing(&self) -> (r: bool)
        ensures
            r == self.spec_allows_typing(),
    {
        match self {
            FieldKind::Secure | FieldKind::NotEditable => false,
            _ => true,
        }
    }

    pub open spec fn spec_reason(self) -> Seq<char> {
        match self {
            FieldKind::Editable => "editable"@,
            FieldKind::Secure => "secure-field"@,
            FieldKind::NotEditable => "not-editable"@,
            FieldKind::Unknown => "unknown"@,
        }
    }

    /// Short reason for logs and telemetry.
    pub fn reason(&self) -> (r: &'static str)
        ensures
            r@ == self.spec_reason(),
    {
        match self {
            FieldKind::Editable => "editable",
            FieldKind::Secure => "secure-field",
            FieldKind::NotEditable => "not-editable",
            FieldKind::Unknown => "unknown",
        }
    }
}

impl Default for FieldKind {
    /// `Unknown`: "we know nothing, allow it".
    fn default() -> (r: Self)
        ensures
            r == FieldKind::Unknown,
    {
        FieldKind::Unknown
    }
}

/// A snapshot of the focused element.
#[derive(Debug, Clone)]
pub struct FocusedField {
    pub kind: FieldKind,
    /// Platform role string, for logs (`AXTextArea`, `Edit`, …).
    pub role: Option<String>,
    /// Currently selected text, when the platform exposes it.
    pub selected_text: Option<String>,
}

impl Default for FocusedField {
    fn default() -> (r: Self)
        ensures
            r.kind == FieldKind::Unknown,
            r.role is None,
            r.selected_text is None,
    {
        FocusedField { kind: FieldKind::Unknown, role: None, selected_text: None }
    }
}

/// macOS AX roles that are text entry surfaces.
pub open spec fn mac_text_role_list() -> Seq<Seq<char>> {
    seq!["AXTextField"@, "AXTextArea"@, "AXComboBox"@, "AXSearchField"@]
}

/// macOS AX roles that definitely cannot take typed text. `AXWebArea`,
/// `AXGroup` and `AXScrollArea` are absent on purpose: Chromium, Electron and
/// terminal emulators report those for perfectly typeable surfaces.
pub open spec fn mac_non_text_role_list() -> Seq<Seq<char>> {
    seq![
        "AXButton"@,
        "AXMenuItem"@,
        "AXMenuBarItem"@,
        "AXMenuButton"@,
        "AXCheckBox"@,
        "AXRadioButton"@,
        "AXSlider"@,
        "AXStepper"@,
        "AXImage"@,
        "AXStaticText"@,
        "AXLink"@,
        "AXTable"@,
        "AXOutline"@,
        "AXRow"@,
        "AXCell"@,
        "AXColumn"@,
        "AXDisclosureTriangle"@,
        "AXPopUpButton"@,
        "AXTabGroup"@,
        "AXToolbar"@,
        "AXSplitter"@,
        "AXProgressIndicator"@,
    ]
}

/// UI Automation control types treated as text entry: Edit, Document, ComboBox.
pub open spec fn uia_text_type_list() -> Seq<i32> {
    seq![50004i32, 50030, 50003]
}

/// Control types that cannot take typed text: Button, CheckBox, RadioButton,
/// ListItem, MenuItem, Tab, TabItem, Tree, TreeItem, Image, Hyperlink,
/// ScrollBar, Slider, ProgressBar, DataGrid, DataItem, Header, HeaderItem.
pub open spec fn uia_non_text_type_list() -> Seq<i32> {
    seq![
        50000i32,
        50002,
        50013,
        50007,
        50011,
        50018,
        50019,
        50023,
        50024,
        50006,
        50005,
        50014,
        50015,
        50012,
        50028,
        50029,
        50034,
        50035,
    ]
}

fn push_all(v: &mut Vec<&'static str>, s: &'static str)
    ensures
        final(v)@.map_values(|x: &str| x@) == old(v)@.map_values(|x: &str| x@).push(s@),
{
    v.push(s);
    assert(final(v)@.map_values(|x: &str| x@) =~= old(v)@.map_values(|x: &str| x@).push(s@));
}

/// The macOS text-entry roles, in list order.
pub fn mac_text_roles() -> (r: Vec<&'static str>)
    ensures
        r@.map_values(|x: &str| x@) == mac_text_role_list(),
{
    let mut v: Vec<&'static str> = Vec::new();
    push_all(&mut v, "AXTextField");
    push_all(&mut v, "AXTextArea");
    push_all(&mut v, "AXComboBox");
    push_all(&mut v, "AXSearchField");
    assert(v@.map_values(|x: &str| x@) =~= mac_text_role_list());
    v
}

/// The macOS roles that cannot take text, in list order.
pub fn mac_non_text_roles() -> (r: Vec<&'static str>)
    ensures
        r@.map_values(|x: &str| x@) == mac_non_text_role_list(),
{
    let mut v: Vec<&'static str> = Vec::new();
    push_all(&mut v, "AXButton");
    push_all(&mut v, "AXMenuItem");
    push_all(&mut v, "AXMenuBarItem");
    push_all(&mut v, "AXMenuButton");
    push_all(&mut v, "AXCheckBox");
    push_all(&mut v, "AXRadioButton");
    push_all(&mut v, "AXSlider");
    push_all(&mut v, "AXStepper");
    push_all(&mut v, "AXImage");
    push_all(&mut v, "AXStaticText");
    push_all(&mut v, "AXLink");
    push_all(&mut v, "AXTable");
    push_all(&mut v, "AXOutline");
    push_all(&mut v, "AXRow");
    push_all(&mut v, "AXCell");
    push_all(&mut v, "AXColumn");
    push_all(&mut v, "AXDisclosureTriangle");
    push_all(&mut v, "AXPopUpButton");
    push_all(&mut v, "AXTabGroup");
    push_all(&mut v, "AXToolbar");
    push_all(&mut v, "AXSplitter");
    push_all(&mut v, "AXProgressIndicator");
    assert(v@.map_values(|x: &str| x@) =~= mac_non_text_role_list());
    v
}

/// The UIA text-entry control types, in list order.
pub fn uia_text_types() -> (r: Vec<i32>)
    ensures
        r@ == uia_text_type_list(),
{
    let v: Vec<i32> = vec![50004, 50030, 50003];
    assert(v@ =~= uia_text_type_list());
    v
}

/// The UIA control types that cannot take text, in list order.
pub fn uia_non_text_types() -> (r: Vec<i32>)
    ensures
        r@ == uia_non_text_type_list(),
{
    let v: Vec<i32> = vec![
        50000,
        50002,
        50013,
        50007,
        50011,
        50018,
        50019,
        50023,
        50024,
        50006,
        50005,
        50014,
        50015,
        50012,
        50028,
        50029,
        50034,
        50035,
    ];
    assert(v@ =~= uia_non_text_type_list());
    v
}

/// Whether `r` is one of the macOS text-entry roles.
pub open spec fn is_mac_text_role(r: Seq<char>) -> bool {
    ||| r == "AXTextField"@
    ||| r == "AXTextArea"@
    ||| r == "AXComboBox"@
    ||| r == "AXSearchField"@
}

/// Whether `r` is one of the macOS roles that cannot take text.
pub open spec fn is_mac_non_text_role(r: Seq<char>) -> bool {
    ||| r == "AXButton"@
    ||| r == "AXMenuItem"@
    ||| r == "AXMenuBarItem"@
    ||| r == "AXMenuButton"@
    ||| r == "AXCheckBox"@
    ||| r == "AXRadioButton"@
    ||| r == "AXSlider"@
    ||| r == "AXStepper"@
    ||| r == "AXImage"@
    ||| r == "AXStaticText"@
    ||| r == "AXLink"@
    ||| r == "AXTable"@
    ||| r == "AXOutline"@
    ||| r == "AXRow"@
    ||| r == "AXCell"@
    ||| r == "AXColumn"@
    ||| r == "AXDisclosureTriangle"@
    ||| r == "AXPopUpButton"@
    ||| r == "AXTabGroup"@
    ||| r == "AXToolbar"@
    ||| r == "AXSplitter"@
    ||| r == "AXProgressIndicator"@
}

fn mac_text_role(r: &str) -> (b: bool)
    ensures
        b == is_mac_text_role(r@),
{
    str_eq(r, "AXTextField") || str_eq(r, "AXTextArea") || str_eq(r, "AXComboBox") || str_eq(r, "AXSearchField")
}

fn mac_non_text_role(r: &str) -> (b: bool)
    ensures
        b == is_mac_non_text_role(r@),
{
    str_eq(r, "AXButton") || str_eq(r, "AXMenuItem") || str_eq(r, "AXMenuBarItem") || str_eq(r, "AXMenuButton") || str_eq(r, "AXCheckBox") || str_eq(r, "AXRadioButton") || str_eq(r, "AXSlider") || str_eq(r, "AXStepper") || str_eq(r, "AXImage") || str_eq(r, "AXStaticText") || str_eq(r, "AXLink") || str_eq(r, "AXTable") || str_eq(r, "AXOutline") || str_eq(r, "AXRow") || str_eq(r, "AXCell") || str_eq(r, "AXColumn") || str_eq(r, "AXDisclosureTriangle") || str_eq(r, "AXPopUpButton") || str_eq(r, "AXTabGroup") || str_eq(r, "AXToolbar") || str_eq(r, "AXSplitter") || str_eq(r, "AXProgressIndicator")
}

fn int_in(list: &Vec<i32>, x: i32) -> (r: bool)
    ensures
        r == list@.contains(x),
{
    let mut i: usize = 0;
    while i < list.len()
        invariant
            i <= list@.len(),
            forall|k: int| 0 <= k < i ==> list@[k] != x,
        decreases list@.len() - i,
    {
        if list[i] == x {
            assert(list@[i as int] == x);
            return true;
        }
        i = i + 1;
    }
    false
}

pub open spec fn opt_view(o: Option<&str>) -> Option<Seq<char>> {
    match o {
        Some(s) => Some(s@),
        None => None,
    }
}

/// Classification of a macOS element from its role and subrole. The subrole
/// comes first: a password box reports `AXRole=AXTextField` with
/// `AXSubrole=AXSecureTextField`.
pub open spec fn spec_classify_mac_role(role: Option<Seq<char>>, subrole: Option<Seq<char>>) -> FieldKind {
    if subrole == Some("AXSecureTextField"@) {
        FieldKind::Secure
    } else {
        match role {
            Some(r) => if is_mac_text_role(r) {
                FieldKind::Editable
            } else if is_mac_non_text_role(r) {
                FieldKind::NotEditable
            } else {
                FieldKind::Unknown
            },
            None => FieldKind::Unknown,
        }
    }
}

/// Classify a macOS focused element from its role and subrole.
pub fn classify_mac_role(role: Option<&str>, subrole: Option<&str>) -> (r: FieldKind)
    ensures
        r == spec_classify_mac_role(opt_view(role), opt_view(subrole)),
{
    if let Some(sub) = subrole {
        if str_eq(sub, "AXSecureTextField") {
            return FieldKind::Secure;
        }
    }
    match role {
        Some(r) => {
            if mac_text_role(r) {
                FieldKind::Editable
            } else if mac_non_text_role(r) {
                FieldKind::NotEditable
            } else {
                FieldKind::Unknown
            }
        },
        None => FieldKind::Unknown,
    }
}

pub open spec fn spec_classify_uia_control(control_type: i32, is_password: bool) -> FieldKind {
    if is_password {
        FieldKind::Secure
    } else if uia_text_type_list().contains(control_type) {
        FieldKind::Editable
    } else if uia_non_text_type_list().contains(control_type) {
        FieldKind::NotEditable
    } else {
        FieldKind::Unknown
    }
}

/// Classify a Windows focused element from its UIA control type and the
/// `IsPassword` property.
pub fn classify_uia_control(control_type: i32, is_password: bool) -> (r: FieldKind)
    ensures
        r == spec_classify_uia_control(control_type, is_password),
{
    if is_password {
        return FieldKind::Secure;
    }
    if int_in(&uia_text_types(), control_type) {
        return FieldKind::Editable;
    }
    if int_in(&uia_non_text_types(), control_type) {
        return FieldKind::NotEditable;
    }
    FieldKind::Unknown
}

/// No role is both a text role and a non-text role, so the order of the two
/// checks in [`classify_mac_role`] never decides anything.
pub proof fn lemma_mac_role_lists_disjoint(r: Seq<char>)
    ensures
        !(is_mac_text_role(r) && is_mac_non_text_role(r)),
{
    assert(!is_mac_non_text_role("AXTextField"@)) by {
        reveal_strlit("AXTextField");
        assert("AXTextField"@.len() == 11);
        reveal_strlit("AXButton");
        assert("AXButton"@.len() == 8);
        reveal_strlit("AXMenuItem");
        assert("AXMenuItem"@.len() == 10);
        reveal_strlit("AXMenuBarItem");
        assert("AXMenuBarItem"@.len() == 13);
        reveal_strlit("AXMenuButton");
        assert("AXMenuButton"@.len() == 12);
        reveal_strlit("AXCheckBox");
        assert("AXCheckBox"@.len() == 10);
        reveal_strlit("AXRadioButton");
        assert("AXRadioButton"@.len() == 13);
        reveal_strlit("AXSlider");
        assert("AXSlider"@.len() == 8);
        reveal_strlit("AXStepper");
        assert("AXStepper"@.len() == 9);
        reveal_strlit("AXImage");
        assert("AXImage"@.len() == 7);
        reveal_strlit("AXStaticText");
        assert("AXStaticText"@.len() == 12);
        reveal_strlit("AXLink");
        assert("AXLink"@.len() == 6);
        reveal_strlit("AXTable");
        assert("AXTable"@.len() == 7);
        reveal_strlit("AXOutline");
        assert("AXOutline"@.len() == 9);
        reveal_strlit("AXRow");
        assert("AXRow"@.len() == 5);
        reveal_strlit("AXCell");
        assert("AXCell"@.len() == 6);
        reveal_strlit("AXColumn");
        assert("AXColumn"@.len() == 8);
        reveal_strlit("AXDisclosureTriangle");
        assert("AXDisclosureTriangle"@.len() == 20);
        reveal_strlit("AXPopUpButton");
        assert("AXPopUpButton"@.len() == 13);
        reveal_strlit("AXTabGroup");
        assert("AXTabGroup"@.len() == 10);
        reveal_strlit("AXToolbar");
        assert("AXToolbar"@.len() == 9);
        reveal_strlit("AXSplitter");
        assert("AXSplitter"@.len() == 10);
        reveal_strlit("AXProgressIndicator");
        assert("AXProgressIndicator"@.len() == 19);
    }
    assert(!is_mac_non_text_role("AXTextArea"@)) by {
        reveal_strlit("AXTextArea");
        assert("AXTextArea"@.len() == 10);
        reveal_strlit("AXButton");
        assert("AXButton"@.len() == 8);
        reveal_strlit("AXMenuItem");
        assert("AXTextArea"@[2] == 'T' && "AXMenuItem"@[2] == 'M');
        reveal_strlit("AXMenuBarItem");
        assert("AXMenuBarItem"@.len() == 13);
        reveal_strlit("AXMenuButton");
        assert("AXMenuButton"@.len() == 12);
        reveal_strlit("AXCheckBox");
        assert("AXTextArea"@[2] == 'T' && "AXCheckBox"@[2] == 'C');
        reveal_strlit("AXRadioButton");
        assert("AXRadioButton"@.len() == 13);
        reveal_strlit("AXSlider");
        assert("AXSlider"@.len() == 8);
        reveal_strlit("AXStepper");
        assert("AXStepper"@.len() == 9);
        reveal_strlit("AXImage");
        assert("AXImage"@.len() == 7);
        reveal_strlit("AXStaticText");
        assert("AXStaticText"@.len() == 12);
        reveal_strlit("AXLink");
        assert("AXLink"@.len() == 6);
        reveal_strlit("AXTable");
        assert("AXTable"@.len() == 7);
        reveal_strlit("AXOutline");
        assert("AXOutline"@.len() == 9);
        reveal_strlit("AXRow");
        assert("AXRow"@.len() == 5);
        reveal_strlit("AXCell");
        assert("AXCell"@.len() == 6);
        reveal_strlit("AXColumn");
        assert("AXColumn"@.len() == 8);
        reveal_strlit("AXDisclosureTriangle");
        assert("AXDisclosureTriangle"@.len() == 20);
        reveal_strlit("AXPopUpButton");
        assert("AXPopUpButton"@.len() == 13);
        reveal_strlit("AXTabGroup");
        assert("AXTextArea"@[3] == 'e' && "AXTabGroup"@[3] == 'a');
        reveal_strlit("AXToolbar");
        assert("AXToolbar"@.len() == 9);
        reveal_strlit("AXSplitter");
        assert("AXTextArea"@[2] == 'T' && "AXSplitter"@[2] == 'S');
        reveal_strlit("AXProgressIndicator");
        assert("AXProgressIndicator"@.len() == 19);
    }
    assert(!is_mac_non_text_role("AXComboBox"@)) by {
        reveal_strlit("AXComboBox");
        assert("AXComboBox"@.len() == 10);
        reveal_strlit("AXButton");
        assert("AXButton"@.len() == 8);
        reveal_strlit("AXMenuItem");
        assert("AXComboBox"@[2] == 'C' && "AXMenuItem"@[2] == 'M');
        reveal_strlit("AXMenuBarItem");
        assert("AXMenuBarItem"@.len() == 13);
        reveal_strlit("AXMenuButton");
        assert("AXMenuButton"@.len() == 12);
        reveal_strlit("AXCheckBox");
        assert("AXComboBox"@[3] == 'o' && "AXCheckBox"@[3] == 'h');
        reveal_strlit("AXRadioButton");
        assert("AXRadioButton"@.len() == 13);
        reveal_strlit("AXSlider");
        assert("AXSlider"@.len() == 8);
        reveal_strlit("AXStepper");
        assert("AXStepper"@.len() == 9);
        reveal_strlit("AXImage");
        assert("AXImage"@.len() == 7);
        reveal_strlit("AXStaticText");
        assert("AXStaticText"@.len() == 12);
        reveal_strlit("AXLink");
        assert("AXLink"@.len() == 6);
        reveal_strlit("AXTable");
        assert("AXTable"@.len() == 7);
        reveal_strlit("AXOutline");
        assert("AXOutline"@.len() == 9);
        reveal_strlit("AXRow");
        assert("AXRow"@.len() == 5);
        reveal_strlit("AXCell");
        assert("AXCell"@.len() == 6);
        reveal_strlit("AXColumn");
        assert("AXColumn"@.len() == 8);
        reveal_strlit("AXDisclosureTriangle");
        assert("AXDisclosureTriangle"@.len() == 20);
        reveal_strlit("AXPopUpButton");
        assert("AXPopUpButton"@.len() == 13);
        reveal_strlit("AXTabGroup");
        assert("AXComboBox"@[2] == 'C' && "AXTabGroup"@[2] == 'T');
        reveal_strlit("AXToolbar");
        assert("AXToolbar"@.len() == 9);
        reveal_strlit("AXSplitter");
        assert("AXComboBox"@[2] == 'C' && "AXSplitter"@[2] == 'S');
        reveal_strlit("AXProgressIndicator");
        assert("AXProgressIndicator"@.len() == 19);
    }
    assert(!is_mac_non_text_role("AXSearchField"@)) by {
        reveal_strlit("AXSearchField");
        assert("AXSearchField"@.len() == 13);
        reveal_strlit("AXButton");
        assert("AXButton"@.len() == 8);
        reveal_strlit("AXMenuItem");
        assert("AXMenuItem"@.len() == 10);
        reveal_strlit("AXMenuBarItem");
        assert("AXSearchField"@[2] == 'S' && "AXMenuBarItem"@[2] == 'M');
        reveal_strlit("AXMenuButton");
        assert("AXMenuButton"@.len() == 12);
        reveal_strlit("AXCheckBox");
        assert("AXCheckBox"@.len() == 10);
        reveal_strlit("AXRadioButton");
        assert("AXSearchField"@[2] == 'S' && "AXRadioButton"@[2] == 'R');
        reveal_strlit("AXSlider");
        assert("AXSlider"@.len() == 8);
        reveal_strlit("AXStepper");
        assert("AXStepper"@.len() == 9);
        reveal_strlit("AXImage");
        assert("AXImage"@.len() == 7);
        reveal_strlit("AXStaticText");
        assert("AXStaticText"@.len() == 12);
        reveal_strlit("AXLink");
        assert("AXLink"@.len() == 6);
        reveal_strlit("AXTable");
        assert("AXTable"@.len() == 7);
        reveal_strlit("AXOutline");
        assert("AXOutline"@.len() == 9);
        reveal_strlit("AXRow");
        assert("AXRow"@.len() == 5);
        reveal_strlit("AXCell");
        assert("AXCell"@.len() == 6);
        reveal_strlit("AXColumn");
        assert("AXColumn"@.len() == 8);
        reveal_strlit("AXDisclosureTriangle");
        assert("AXDisclosureTriangle"@.len() == 20);
        reveal_strlit("AXPopUpButton");
        assert("AXSearchField"@[2] == 'S' && "AXPopUpButton"@[2] == 'P');
        reveal_strlit("AXTabGroup");
        assert("AXTabGroup"@.len() == 10);
        reveal_strlit("AXToolbar");
        assert("AXToolbar"@.len() == 9);
        reveal_strlit("AXSplitter");
        assert("AXSplitter"@.len() == 10);
        reveal_strlit("AXProgressIndicator");
        assert("AXProgressIndicator"@.len() == 19);
    }
}

/// No UIA control type is in both lists.
pub proof fn lemma_uia_type_lists_disjoint(t: i32)
    ensures
        !(uia_text_type_list().contains(t) && uia_non_text_type_list().contains(t)),
{
    if uia_text_type_list().contains(t) {
        let i = choose|i: int| 0 <= i < uia_text_type_list().len() && uia_text_type_list()[i] == t;
        assert(t == 50004 || t == 50030 || t == 50003);
        if uia_non_text_type_list().contains(t) {
            let j = choose|j: int|
                0 <= j < uia_non_text_type_list().len() && uia_non_text_type_list()[j] == t;
            assert(false);
        }
    }
}

/// Whether the selection may be read from a field of this kind: never from
/// a secure one, so a password never enters this process.
pub fn reads_selection(kind: FieldKind) -> (r: bool)
    ensures
        r == (kind != FieldKind::Secure),
{
    match kind {
        FieldKind::Secure => false,
        _ => true,
    }
}

/// A focused-field snapshot from its classification, role and the selection
/// that was read; a secure field carries no selection whatever was passed.
pub fn focused_field_from(kind: FieldKind, role: Option<String>, selection: Option<String>) -> (r:
    FocusedField)
    ensures
        r.kind == kind,
        r.role == role,
        kind == FieldKind::Secure ==> r.selected_text is None,
        kind != FieldKind::Secure ==> r.selected_text == selection,
{
    let selected_text = if reads_selection(kind) {
        selection
    } else {
        None
    };
    FocusedField { kind, role, selected_text }
}

/// The focused field as macOS Accessibility reports it: classified from its
/// role and subrole, with the selection that was read kept only when the
/// field is not secure. The host reads the selection only when
/// `reads_selection` allows it for the classified kind.
pub fn focused_field_mac(role: Option<String>, subrole: Option<String>, selection: Option<String>) -> (r:
    FocusedField)
    ensures
        r.kind == spec_classify_mac_role(crate::commands::opt_view(role), crate::commands::opt_view(
            subrole,
        )),
        r.role == role,
        r.kind == FieldKind::Secure ==> r.selected_text is None,
        r.kind != FieldKind::Secure ==> r.selected_text == selection,
{
    let kind = {
        let role_ref: Option<&str> = match &role {
            Some(s) => Some(s.as_str()),
            None => None,
        };
        let sub_ref: Option<&str> = match &subrole {
            Some(s) => Some(s.as_str()),
            None => None,
        };
        classify_mac_role(role_ref, sub_ref)
    };
    focused_field_from(kind, role, selection)
}

/// The role string logged for a Windows element: its class name when it has
/// a non-empty one, else `uia:` and the control type id.
pub fn uia_role(class_name: Option<String>, control_type: i32) -> (r: Option<String>)
    ensures
        match class_name {
            Some(c) => if c@.len() > 0 {
                r == Some(c)
            } else {
                r matches Some(s) && s@ == "uia:"@ + crate::commands::signed_decimal(control_type as int)
            },
            None => r matches Some(s) && s@ == "uia:"@ + crate::commands::signed_decimal(control_type as int),
        },
{
    match class_name {
        Some(c) => {
            if !c.as_str().is_empty() {
                return Some(c);
            }
        },
        None => {},
    }
    let mut out: Vec<char> = Vec::new();
    crate::text::push_str(&mut out, "uia:");
    let n = control_type as i64;
    if n < 0 {
        out.push('-');
        crate::text::push_decimal(&mut out, (-n) as u64);
    } else {
        crate::text::push_decimal(&mut out, n as u64);
    }
    Some(crate::text::string_of(&out))
}

/// The focused window's title as macOS Accessibility reports it: an empty
/// title counts as none.
pub fn window_title_from(title: Option<String>) -> (r: Option<String>)
    ensures
        match title {
            Some(t) => if t@.len() > 0 {
                r == Some(t)
            } else {
                r is None
            },
            None => r is None,
        },
{
    match title {
        Some(t) => if !t.as_str().is_empty() {
            Some(t)
        } else {
            None
        },
        None => None,
    }
}

/// The element with keyboard focus as this host reports it. Hosts without an
/// accessibility read report the permissive default.
pub fn focused_field() -> (r: FocusedField)
    ensures
        r.kind == FieldKind::Unknown,
        r.role is None,
        r.selected_text is None,
{
    FocusedField::default()
}

/// The selection of a field snapshot, for `$SELECTION`: an empty selection
/// counts as none.
pub fn selection_of(field: &FocusedField) -> (r: Option<String>)
    ensures
        match field.selected_text {
            Some(t) => if t@.len() > 0 {
                r matches Some(s) && s@ == t@
            } else {
                r is None
            },
            None => r is None,
        },
{
    match &field.selected_text {
        Some(t) => {
            if !t.as_str().is_empty() {
                Some(t.clone())
            } else {
                None
            }
        },
        None => None,
    }
}

/// Selected text in the focused element.
pub fn selected_text() -> (r: Option<String>)
    ensures
        r is None,
{
    let f = focused_field();
    selection_of(&f)
}

/// Title of the focused window of the frontmost app, where this host can
/// read one.
pub fn focused_window_title() -> (r: Option<String>)
    ensures
        r is None,
{
    None
}

} // verus!
