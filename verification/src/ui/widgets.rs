//! What panes are made of: texts and buttons.

use crate::ui::settings::Setting;
use crate::ui::state::Cmd;
use vstd::prelude::*;
use vstd::string::*;

verus! {

/// How a button stands out.
#[derive(Debug, Clone, Copy, PartialEq, Eq, Structural)]
pub enum Emphasis {
    Plain,
    Primary,
    Success,
    Warning,
    Danger,
    Outline,
    Faint,
}

/// What a button does.
#[derive(Debug, Clone, Copy, PartialEq, Eq, Structural)]
pub enum Action {
    Do(Cmd),
    /// Change between the light and the dark theme.
    SwitchTheme,
    Minimize,
    Maximize,
    Close,
    SelectBuffer(usize),
    OpenRecent(usize),
    UseOutput(usize),
    UseInput(usize),
    DisableInput,
    UseDriver(usize),
    Toggle(Setting),
    ChannelDown,
    ChannelUp,
    TempoDown,
    TempoUp,
    TempoTap,
    UseTheme(usize),
    UseLang(usize),
    ShowEntry(usize),
    ShowChapter(usize),
    LoadExample(usize),
}

/// A button.
#[derive(Debug, Clone)]
pub struct Button {
    pub label: String,
    /// What assistive technology reads; empty where the label says it.
    pub hint: String,
    pub style: Emphasis,
    pub action: Action,
}

#[verifier::ext_equal]
pub struct ButtonView {
    pub label: Seq<char>,
    pub hint: Seq<char>,
    pub style: Emphasis,
    pub action: Action,
}

impl View for Button {
    type V = ButtonView;

    open spec fn view(&self) -> ButtonView {
        ButtonView {
            label: self.label@,
            hint: self.hint@,
            style: self.style,
            action: self.action,
        }
    }
}

pub open spec fn button_views(v: Seq<Button>) -> Seq<ButtonView> {
    Seq::new(v.len(), |i: int| v[i]@)
}

/// A button without a hint.
pub open spec fn button(label: Seq<char>, style: Emphasis, action: Action) -> ButtonView {
    ButtonView { label, hint: ""@, style, action }
}

/// A button that stands out when it is the one in use.
pub open spec fn chosen(on: bool) -> Emphasis {
    if on {
        Emphasis::Primary
    } else {
        Emphasis::Outline
    }
}

pub fn chosen_style(on: bool) -> (r: Emphasis)
    ensures
        r == chosen(on),
{
    if on {
        Emphasis::Primary
    } else {
        Emphasis::Outline
    }
}

pub fn push_button(v: &mut Vec<Button>, label: String, hint: &str, style: Emphasis, action: Action)
    ensures
        button_views(final(v)@) == button_views(old(v)@).push(
            (ButtonView { label: label@, hint: hint@, style, action }),
        ),
{
    let ghost before = button_views(v@);
    let b: Button = Button { label, hint: String::from_str(hint), style, action };
    v.push(b);
    assert(button_views(v@) =~= before.push(b@));
}

/// A row of a pane: a text and the buttons after it, either of which may be
/// missing.
#[derive(Debug, Clone)]
pub struct PaneRow {
    pub text: String,
    pub buttons: Vec<Button>,
}

#[verifier::ext_equal]
pub struct PaneRowView {
    pub text: Seq<char>,
    pub buttons: Seq<ButtonView>,
}

impl View for PaneRow {
    type V = PaneRowView;

    open spec fn view(&self) -> PaneRowView {
        PaneRowView { text: self.text@, buttons: button_views(self.buttons@) }
    }
}

pub open spec fn pane_views(v: Seq<PaneRow>) -> Seq<PaneRowView> {
    Seq::new(v.len(), |i: int| v[i]@)
}

/// A row with a text alone.
pub open spec fn text_row(text: Seq<char>) -> PaneRowView {
    PaneRowView { text, buttons: seq![] }
}

pub fn push_row(v: &mut Vec<PaneRow>, text: String, buttons: Vec<Button>)
    ensures
        pane_views(final(v)@) == pane_views(old(v)@).push(
            (PaneRowView { text: text@, buttons: button_views(buttons@) }),
        ),
{
    let ghost before = pane_views(v@);
    let row: PaneRow = PaneRow { text, buttons };
    v.push(row);
    assert(pane_views(v@) =~= before.push(row@));
}

pub fn push_text(v: &mut Vec<PaneRow>, text: String)
    ensures
        pane_views(final(v)@) == pane_views(old(v)@).push(text_row(text@)),
{
    let buttons: Vec<Button> = Vec::new();
    assert(button_views(buttons@) =~= seq![]);
    push_row(v, text, buttons);
}

} // verus!
