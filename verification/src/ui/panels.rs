//! The tabs, the node tree, the log and the frames around the panes.

use crate::i18n::{translated, I18n};
use crate::log::{row_views, run_color, LogLine, RowView, RUN_PALETTE};
use crate::number::{decimal, decimal_int, int_text, nat_text};
use crate::text::{join, joined, string_views};
use crate::ui::files::{recent_label, recent_name, tab_label, tab_name, BUFFER_COUNT};
use crate::ui::state::{valid, App, AppView, Panes};
use crate::ui::widgets::{
    button, button_views, pane_views, push_button, push_row, Action, Button, ButtonView, Emphasis,
    PaneRow, PaneRowView,
};
use crate::utf8::{byte_len, text_bytes};
use std::collections::HashMap;
use vstd::prelude::*;
use vstd::string::*;

verus! {

/// The buttons of the buffers, the shown one standing out.
pub open spec fn tab_buttons(v: AppView) -> Seq<ButtonView> {
    Seq::new(
        v.files.paths.len(),
        |i: int|
            button(
                tab_name(v.files.paths[i], i),
                if i == v.active {
                    Emphasis::Primary
                } else {
                    Emphasis::Plain
                },
                Action::SelectBuffer(i as usize),
            ),
    )
}

/// The buttons of the recent files.
pub open spec fn recent_buttons(recent: Seq<Seq<char>>) -> Seq<ButtonView> {
    Seq::new(
        recent.len(),
        |i: int| button(recent_name(recent[i]), Emphasis::Faint, Action::OpenRecent(i as usize)),
    )
}

/// The rows above the editor: the buffers, and the recent files if there are any.
pub open spec fn tab_rows(v: AppView, t: Map<Seq<char>, Seq<char>>) -> Seq<PaneRowView> {
    let tabs = seq![PaneRowView { text: ""@, buttons: tab_buttons(v) }];
    if v.files.recent.len() > 0 {
        tabs.push(
            PaneRowView {
                text: translated(t, "Recent"@) + ":"@,
                buttons: recent_buttons(v.files.recent),
            },
        )
    } else {
        tabs
    }
}

/// The rows of the log that are shown, oldest first.
pub open spec fn shown_rows(log: Seq<RowView>, debug: bool) -> Seq<RowView> {
    log.filter(|l: RowView| debug || !l.debug)
}

/// The texts of some rows.
pub open spec fn row_texts(rows: Seq<RowView>) -> Seq<Seq<char>> {
    rows.map_values(|l: RowView| l.text)
}

/// How many rows assistive technology reads out.
pub const READ_ROWS: usize = 16;

/// What assistive technology reads of the log: its newest rows.
pub open spec fn log_label_of(log: Seq<RowView>, debug: bool) -> Seq<char> {
    let newest = shown_rows(log, debug).reverse();
    "Run log. "@ + join(
        row_texts(
            if newest.len() > READ_ROWS {
                newest.take(READ_ROWS as int)
            } else {
                newest
            },
        ),
        ". "@,
    )
}

/// The log as it is copied: oldest row first.
pub open spec fn log_copy_of(log: Seq<RowView>, debug: bool) -> Seq<char> {
    join(row_texts(shown_rows(log, debug)), "\n"@)
}

/// The colour of a row.
#[derive(Debug, Clone, Copy, PartialEq, Eq, Structural)]
pub enum RowColor {
    Error,
    /// The colour of a run, as RGB.
    Run(u32),
    Plain,
}

/// The colour of a row: errors stand out, the rows of a run share its colour.
pub open spec fn color_of(l: RowView) -> RowColor {
    if l.error {
        RowColor::Error
    } else {
        match l.run {
            Some(r) => RowColor::Run(
                RUN_PALETTE[if r > 0 {
                    r as int % 6
                } else {
                    0
                }],
            ),
            None => RowColor::Plain,
        }
    }
}

/// The colour of a row of the log.
pub fn row_color(l: &LogLine) -> (r: RowColor)
    ensures
        r == color_of(l@),
{
    if l.error {
        RowColor::Error
    } else {
        match l.run {
            Some(run) => RowColor::Run(run_color(run)),
            None => RowColor::Plain,
        }
    }
}

fn shown_texts(log: &Vec<LogLine>, debug: bool) -> (r: Vec<String>)
    ensures
        string_views(r@) == row_texts(shown_rows(row_views(log@), debug)),
{
    let ghost all = row_views(log@);
    let ghost f = |l: RowView| debug || !l.debug;
    let mut out: Vec<String> = Vec::new();
    let mut i: usize = 0;
    proof {
        reveal(Seq::filter);
        assert(string_views(out@) =~= row_texts(all.take(0).filter(f)));
    }
    while i < log.len()
        invariant
            i <= log@.len(),
            all == row_views(log@),
            f == (|l: RowView| debug || !l.debug),
            string_views(out@) == row_texts(all.take(i as int).filter(f)),
        decreases log@.len() - i,
    {
        let ghost before = string_views(out@);
        assert(all[i as int] == log@[i as int]@);
        proof {
            all.take(i as int).lemma_filter_push(all[i as int], f);
            assert(all.take(i as int).push(all[i as int]) =~= all.take(i + 1));
        }
        if debug || !log[i].debug {
            let t: String = log[i].text.clone();
            out.push(t);
            assert(string_views(out@) =~= before.push(t@));
            assert(string_views(out@) =~= row_texts(all.take(i + 1).filter(f)));
        }
        i = i + 1;
    }
    assert(all.take(i as int) =~= all);
    out
}

impl App {
    /// The rows above the editor.
    pub fn tab_row(&self, i18n: &I18n) -> (r: Vec<PaneRow>)
        requires
            valid(self@),
        ensures
            pane_views(r@) == tab_rows(self@, i18n.table@),
    {
        let mut rows: Vec<PaneRow> = Vec::new();
        assert(pane_views(rows@) =~= seq![]);
        let ghost tabs = tab_buttons(self@);
        let mut buttons: Vec<Button> = Vec::new();
        let mut i: usize = 0;
        assert(button_views(buttons@) =~= tabs.take(0));
        while i < BUFFER_COUNT
            invariant
                i <= BUFFER_COUNT,
                valid(self@),
                tabs == tab_buttons(self@),
                button_views(buttons@) == tabs.take(i as int),
            decreases BUFFER_COUNT - i,
        {
            let label: String = tab_label(self.files.path(i), i);
            let style: Emphasis = if i == self.active {
                Emphasis::Primary
            } else {
                Emphasis::Plain
            };
            push_button(&mut buttons, label, "", style, Action::SelectBuffer(i));
            i = i + 1;
            assert(button_views(buttons@) =~= tabs.take(i as int));
        }
        assert(tabs.take(i as int) =~= tabs);
        push_row(&mut rows, String::from_str(""), buttons);
        let recent: &Vec<String> = &self.files.recent;
        if recent.len() > 0 {
            let ghost all = recent_buttons(string_views(recent@));
            let mut buttons: Vec<Button> = Vec::new();
            let mut k: usize = 0;
            assert(button_views(buttons@) =~= all.take(0));
            while k < recent.len()
                invariant
                    k <= recent@.len(),
                    all == recent_buttons(string_views(recent@)),
                    button_views(buttons@) == all.take(k as int),
                decreases recent@.len() - k,
            {
                assert(string_views(recent@)[k as int] == recent@[k as int]@);
                let label: String = recent_label(recent[k].as_str());
                push_button(&mut buttons, label, "", Emphasis::Faint, Action::OpenRecent(k));
                k = k + 1;
                assert(button_views(buttons@) =~= all.take(k as int));
            }
            assert(all.take(k as int) =~= all);
            let text: String = String::from_str(i18n.tr("Recent")).concat(":");
            push_row(&mut rows, text, buttons);
        }
        rows
    }

    /// The indices of the log rows to show, newest first.
    pub fn log_order(&self) -> (r: Vec<usize>)
        ensures
            r@.len() == shown_rows(self@.log, self@.panes.show_debug).len(),
            forall|i: int|
                0 <= i < r@.len() ==> {
                    &&& (#[trigger] r@[i]) < self@.log.len()
                    &&& self@.log[r@[i] as int] == shown_rows(
                        self@.log,
                        self@.panes.show_debug,
                    ).reverse()[i]
                },
            forall|i: int, j: int| 0 <= i < j < r@.len() ==> r@[i] > r@[j],
    {
        let ghost all = self@.log;
        let debug: bool = self.panes.show_debug;
        let ghost f = |l: RowView| debug || !l.debug;
        let mut found: Vec<usize> = Vec::new();
        let mut i: usize = 0;
        proof {
            reveal(Seq::filter);
            assert(all.take(0).filter(f) =~= seq![]);
        }
        while i < self.log.len()
            invariant
                i <= self.log@.len(),
                all == self@.log,
                debug == self.panes.show_debug,
                f == (|l: RowView| debug || !l.debug),
                found@.len() == all.take(i as int).filter(f).len(),
                forall|k: int|
                    0 <= k < found@.len() ==> (#[trigger] found@[k]) < i && all[found@[k] as int]
                        == all.take(i as int).filter(f)[k],
                forall|k: int, m: int| 0 <= k < m < found@.len() ==> found@[k] < found@[m],
            decreases self.log@.len() - i,
        {
            assert(all[i as int] == self.log@[i as int]@);
            proof {
                all.take(i as int).lemma_filter_push(all[i as int], f);
                assert(all.take(i as int).push(all[i as int]) =~= all.take(i + 1));
            }
            if debug || !self.log[i].debug {
                found.push(i);
            }
            i = i + 1;
        }
        assert(all.take(i as int) =~= all);
        let ghost shown = shown_rows(all, debug);
        let mut out: Vec<usize> = Vec::new();
        let mut k: usize = found.len();
        while k > 0
            invariant
                k <= found@.len(),
                out@.len() == found@.len() - k,
                shown.len() == found@.len(),
                forall|m: int|
                    0 <= m < found@.len() ==> (#[trigger] found@[m]) < all.len()
                        && all[found@[m] as int] == shown[m],
                forall|m: int, n: int| 0 <= m < n < found@.len() ==> found@[m] < found@[n],
                forall|m: int|
                    0 <= m < out@.len() ==> #[trigger] out@[m] == found@[found@.len() - 1 - m],
            decreases k,
        {
            k = k - 1;
            out.push(found[k]);
        }
        out
    }

    /// What assistive technology reads of the log.
    pub fn log_label(&self) -> (r: String)
        ensures
            r@ == log_label_of(self@.log, self@.panes.show_debug),
    {
        let texts: Vec<String> = shown_texts(&self.log, self.panes.show_debug);
        let ghost all = string_views(texts@);
        let ghost shown = shown_rows(self@.log, self@.panes.show_debug);
        let ghost rows = shown.reverse();
        let ghost read = if rows.len() > READ_ROWS {
            rows.take(READ_ROWS as int)
        } else {
            rows
        };
        let mut out: Vec<String> = Vec::new();
        let mut k: usize = texts.len();
        assert(all.len() == texts@.len());
        assert(row_texts(shown).len() == shown.len());
        assert(string_views(out@) =~= row_texts(read).take(0));
        while k > 0 && out.len() < READ_ROWS
            invariant
                k <= texts@.len(),
                out@.len() == texts@.len() - k,
                out@.len() <= READ_ROWS,
                all == string_views(texts@),
                rows == shown.reverse(),
                all == row_texts(shown),
                shown.len() == texts@.len(),
                read == (if rows.len() > READ_ROWS {
                    rows.take(READ_ROWS as int)
                } else {
                    rows
                }),
                string_views(out@) == row_texts(read).take(out@.len() as int),
            decreases k,
        {
            let ghost before = string_views(out@);
            k = k - 1;
            let t: String = texts[k].clone();
            assert(all[k as int] == texts@[k as int]@);
            assert(rows[texts@.len() - 1 - k] == shown[k as int]);
            assert(all[k as int] == shown[k as int].text);
            out.push(t);
            assert(string_views(out@) =~= before.push(t@));
            assert(string_views(out@) =~= row_texts(read).take(out@.len() as int));
        }
        assert(string_views(out@) =~= row_texts(read));
        let body: String = joined(&out, ". ");
        String::from_str("Run log. ").concat(body.as_str())
    }

    /// The log as it is copied.
    pub fn log_copy(&self) -> (r: String)
        ensures
            r@ == log_copy_of(self@.log, self@.panes.show_debug),
    {
        let texts: Vec<String> = shown_texts(&self.log, self.panes.show_debug);
        joined(&texts, "\n")
    }

    /// What assistive technology calls the editor.
    pub fn editor_label(&self, text: &str, caret: usize) -> (r: String)
        requires
            valid(self@),
        ensures
            r@ == "Sonic Pi code editor, buffer "@ + decimal((self@.active + 1) as nat) + ", "@
                + decimal(byte_len(text@) as nat) + " characters, cursor at offset "@ + decimal(
                caret as nat,
            ),
    {
        let number: String = nat_text((self.active + 1) as u64);
        let bytes: String = nat_text(text_bytes(text) as u64);
        let at: String = nat_text(caret as u64);
        let mut t: String = String::from_str("Sonic Pi code editor, buffer ");
        t.append(number.as_str());
        t.append(", ");
        t.append(bytes.as_str());
        t.append(" characters, cursor at offset ");
        t.append(at.as_str());
        t
    }
}

/// A synth or group of the engine.
#[derive(Debug, Clone)]
pub struct NodeInfo {
    pub id: i32,
    /// Negative for a node without a parent.
    pub parent_id: i32,
    pub is_group: bool,
    pub name: String,
}

#[verifier::ext_equal]
pub struct NodeView {
    pub id: i32,
    pub parent_id: i32,
    pub is_group: bool,
    pub name: Seq<char>,
}

impl View for NodeInfo {
    type V = NodeView;

    open spec fn view(&self) -> NodeView {
        NodeView {
            id: self.id,
            parent_id: self.parent_id,
            is_group: self.is_group,
            name: self.name@,
        }
    }
}

pub open spec fn node_views(v: Seq<NodeInfo>) -> Seq<NodeView> {
    Seq::new(v.len(), |i: int| v[i]@)
}

/// The parent of a node, by the last entry of its id.
pub open spec fn parent_of(nodes: Seq<NodeView>, id: i32) -> Option<i32>
    decreases nodes.len(),
{
    if nodes.len() == 0 {
        None
    } else if nodes.last().id == id {
        Some(nodes.last().parent_id)
    } else {
        parent_of(nodes.drop_last(), id)
    }
}

/// How deep the tree is shown.
pub const MAX_DEPTH: usize = 8;

/// How many ancestors a node has, counting at most `left`.
pub open spec fn depth_of(nodes: Seq<NodeView>, id: i32, left: nat) -> int
    decreases left,
{
    if left == 0 {
        0
    } else {
        match parent_of(nodes, id) {
            Some(p) => if p >= 0 {
                1 + depth_of(nodes, p, (left - 1) as nat)
            } else {
                0
            },
            None => 0,
        }
    }
}

/// A tree that runs in circles is cut off all the same.
pub proof fn law_depth_is_bounded(nodes: Seq<NodeView>, id: i32, left: nat)
    ensures
        0 <= depth_of(nodes, id, left) <= left,
    decreases left,
{
    if left > 0 {
        match parent_of(nodes, id) {
            Some(p) => {
                law_depth_is_bounded(nodes, p, (left - 1) as nat);
            },
            None => {},
        }
    }
}

/// `n` times two spaces.
pub open spec fn indentation(n: int) -> Seq<char> {
    Seq::new((2 * n) as nat, |i: int| ' ')
}

/// The line of a node: indented by its depth, marked as a group or a synth.
pub open spec fn node_line_of(nodes: Seq<NodeView>, n: NodeView) -> Seq<char> {
    indentation(depth_of(nodes, n.id, MAX_DEPTH as nat)) + (if n.is_group {
        "▸"@
    } else {
        "♪"@
    }) + " "@ + n.name + " ["@ + decimal_int(n.id as int) + "]"@
}

/// The lines of the node pane.
pub open spec fn node_lines_of(nodes: Option<Seq<NodeView>>) -> Seq<Seq<char>> {
    match nodes {
        None => seq!["Node tree: waiting for the engine…"@],
        Some(ns) => seq![decimal(ns.len()) + " node(s)"@] + ns.map_values(
            |n: NodeView| node_line_of(ns, n),
        ),
    }
}

/// Whether `parents` holds the parent of every node, and nothing else.
spec fn holds_parents(parents: Map<i32, i32>, nodes: Seq<NodeView>) -> bool {
    forall|id: i32|
        #![trigger parents.contains_key(id)]
        #![trigger parent_of(nodes, id)]
        match parent_of(nodes, id) {
            Some(p) => parents.contains_key(id) && parents[id] == p,
            None => !parents.contains_key(id),
        }
}

fn parents_in(nodes: &Vec<NodeInfo>) -> (r: HashMap<i32, i32>)
    ensures
        holds_parents(r@, node_views(nodes@)),
{
    broadcast use vstd::std_specs::hash::group_hash_axioms;

    let ghost all = node_views(nodes@);
    let mut parents: HashMap<i32, i32> = HashMap::new();
    let mut i: usize = 0;
    while i < nodes.len()
        invariant
            i <= nodes@.len(),
            all == node_views(nodes@),
            holds_parents(parents@, all.take(i as int)),
        decreases nodes@.len() - i,
    {
        assert(all.take(i + 1).last() == nodes@[i as int]@);
        assert(all.take(i + 1).drop_last() =~= all.take(i as int));
        parents.insert(nodes[i].id, nodes[i].parent_id);
        i = i + 1;
    }
    assert(all.take(i as int) =~= all);
    parents
}

fn find_depth(parents: &HashMap<i32, i32>, id: i32, Ghost(all): Ghost<Seq<NodeView>>) -> (r: usize)
    requires
        holds_parents(parents@, all),
    ensures
        r == depth_of(all, id, MAX_DEPTH as nat),
        r <= MAX_DEPTH,
{
    broadcast use vstd::std_specs::hash::group_hash_axioms;

    let mut at: i32 = id;
    let mut d: usize = 0;
    while d < MAX_DEPTH
        invariant
            d <= MAX_DEPTH,
            holds_parents(parents@, all),
            depth_of(all, id, MAX_DEPTH as nat) == d + depth_of(
                all,
                at,
                (MAX_DEPTH - d) as nat,
            ),
        decreases MAX_DEPTH - d,
    {
        assert(parents@.contains_key(at) <==> parent_of(all, at) is Some);
        match parents.get(&at) {
            Some(p) => {
                let p: i32 = *p;
                if p < 0 {
                    return d;
                }
                at = p;
                d = d + 1;
            },
            None => {
                return d;
            },
        }
    }
    d
}

fn node_line(
    parents: &HashMap<i32, i32>,
    n: &NodeInfo,
    Ghost(all): Ghost<Seq<NodeView>>,
) -> (r: String)
    requires
        holds_parents(parents@, all),
    ensures
        r@ == node_line_of(all, n@),
{
    let depth: usize = find_depth(parents, n.id, Ghost(all));
    let mut t: String = String::new();
    let mut i: usize = 0;
    assert(t@ =~= indentation(0));
    while i < depth
        invariant
            i <= depth,
            t@ == indentation(i as int),
        decreases depth - i,
    {
        t.push(' ');
        t.push(' ');
        i = i + 1;
        assert(t@ =~= indentation(i as int));
    }
    t.append(
        if n.is_group {
            "▸"
        } else {
            "♪"
        },
    );
    t.append(" ");
    t.append(n.name.as_str());
    t.append(" [");
    let id: String = int_text(n.id as i64);
    t.append(id.as_str());
    t.append("]");
    t
}

/// The lines of the node pane; `None` while the engine has not shown its tree.
pub fn node_lines(nodes: Option<&Vec<NodeInfo>>) -> (r: Vec<String>)
    ensures
        string_views(r@) == node_lines_of(
            match nodes {
                Some(v) => Some(node_views(v@)),
                None => None,
            },
        ),
{
    let mut out: Vec<String> = Vec::new();
    match nodes {
        None => {
            out.push(String::from_str("Node tree: waiting for the engine…"));
            assert(string_views(out@) =~= node_lines_of(None));
        },
        Some(ns) => {
            let count: String = nat_text(ns.len() as u64);
            out.push(count.concat(" node(s)"));
            let parents: HashMap<i32, i32> = parents_in(ns);
            let ghost all = node_lines_of(Some(node_views(ns@)));
            let mut i: usize = 0;
            assert(string_views(out@) =~= all.take(1));
            while i < ns.len()
                invariant
                    i <= ns@.len(),
                    holds_parents(parents@, node_views(ns@)),
                    all == node_lines_of(Some(node_views(ns@))),
                    string_views(out@) == all.take(i + 1),
                decreases ns@.len() - i,
            {
                let ghost before = string_views(out@);
                assert(node_views(ns@)[i as int] == ns@[i as int]@);
                let t: String = node_line(&parents, &ns[i], Ghost(node_views(ns@)));
                assert(all[i + 1] == t@);
                out.push(t);
                i = i + 1;
                assert(string_views(out@) =~= before.push(t@));
                assert(string_views(out@) =~= all.take(i + 1));
            }
            assert(all.take(i + 1) =~= all);
        },
    }
    out
}

/// The panes: the editor, and those that come and go beside it.
#[derive(Debug, Clone, Copy, PartialEq, Eq, Structural)]
pub enum PaneId {
    Editor,
    Tutorial,
    Nodes,
    Help,
    Settings,
}

/// The title of a pane, in English.
pub open spec fn pane_title(p: PaneId) -> Seq<char> {
    match p {
        PaneId::Editor => "Editor"@,
        PaneId::Tutorial => "Tutorial"@,
        PaneId::Nodes => "Nodes"@,
        PaneId::Help => "Help"@,
        PaneId::Settings => "Settings"@,
    }
}

/// What assistive technology calls a pane beside the editor; the editor's label
/// tells what is in it.
pub open spec fn pane_hint(p: PaneId) -> Option<Seq<char>> {
    match p {
        PaneId::Editor => None,
        PaneId::Tutorial => Some("Tutorial and examples browser"@),
        PaneId::Nodes => Some("Live synth node tree"@),
        PaneId::Help => Some("Documentation search"@),
        PaneId::Settings => Some("Audio settings"@),
    }
}

impl PaneId {
    pub fn title(self) -> (r: &'static str)
        ensures
            r@ == pane_title(self),
    {
        match self {
            PaneId::Editor => "Editor",
            PaneId::Tutorial => "Tutorial",
            PaneId::Nodes => "Nodes",
            PaneId::Help => "Help",
            PaneId::Settings => "Settings",
        }
    }

    pub fn hint(self) -> (r: Option<&'static str>)
        ensures
            match r {
                Some(t) => pane_hint(self) == Some(t@),
                None => pane_hint(self) is None,
            },
    {
        match self {
            PaneId::Editor => None,
            PaneId::Tutorial => Some("Tutorial and examples browser"),
            PaneId::Nodes => Some("Live synth node tree"),
            PaneId::Help => Some("Documentation search"),
            PaneId::Settings => Some("Audio settings"),
        }
    }
}

/// Whether a pane is open. The editor always is.
pub open spec fn is_open(p: Panes, id: PaneId) -> bool {
    match id {
        PaneId::Editor => true,
        PaneId::Tutorial => p.tutorial_open,
        PaneId::Nodes => p.nodes_open,
        PaneId::Help => p.help_open,
        PaneId::Settings => p.settings_open,
    }
}

/// The panes beside the editor, from top to bottom.
pub open spec fn pane_order() -> Seq<PaneId> {
    seq![PaneId::Tutorial, PaneId::Nodes, PaneId::Help, PaneId::Settings]
}

/// The panes beside the editor that are open, from top to bottom.
pub fn open_panes(p: Panes) -> (r: Vec<PaneId>)
    ensures
        r@ == pane_order().filter(|id: PaneId| is_open(p, id)),
{
    let ghost f = |id: PaneId| is_open(p, id);
    let mut out: Vec<PaneId> = Vec::new();
    if p.tutorial_open {
        out.push(PaneId::Tutorial);
    }
    if p.nodes_open {
        out.push(PaneId::Nodes);
    }
    if p.help_open {
        out.push(PaneId::Help);
    }
    if p.settings_open {
        out.push(PaneId::Settings);
    }
    proof {
        reveal(Seq::filter);
        let s0 = Seq::<PaneId>::empty();
        let s1 = s0.push(PaneId::Tutorial);
        let s2 = s1.push(PaneId::Nodes);
        let s3 = s2.push(PaneId::Help);
        assert(s0.filter(f) =~= s0);
        s0.lemma_filter_push(PaneId::Tutorial, f);
        s1.lemma_filter_push(PaneId::Nodes, f);
        s2.lemma_filter_push(PaneId::Help, f);
        s3.lemma_filter_push(PaneId::Settings, f);
        assert(s3.push(PaneId::Settings) =~= pane_order());
        assert(out@ =~= pane_order().filter(f));
    }
    out
}

/// The panes that are folded to their title bars.
#[derive(Debug, Clone, Copy, PartialEq, Eq, Structural)]
pub struct Folds {
    pub editor: bool,
    pub tutorial: bool,
    pub nodes: bool,
    pub help: bool,
    pub settings: bool,
}

/// Whether a pane is folded.
pub open spec fn folded(f: Folds, id: PaneId) -> bool {
    match id {
        PaneId::Editor => f.editor,
        PaneId::Tutorial => f.tutorial,
        PaneId::Nodes => f.nodes,
        PaneId::Help => f.help,
        PaneId::Settings => f.settings,
    }
}

/// The folds after a click on the title bar of a pane.
pub open spec fn fold_toggled(f: Folds, id: PaneId) -> Folds {
    match id {
        PaneId::Editor => Folds { editor: !f.editor, ..f },
        PaneId::Tutorial => Folds { tutorial: !f.tutorial, ..f },
        PaneId::Nodes => Folds { nodes: !f.nodes, ..f },
        PaneId::Help => Folds { help: !f.help, ..f },
        PaneId::Settings => Folds { settings: !f.settings, ..f },
    }
}

impl Folds {
    /// No pane is folded.
    pub fn new() -> (r: Folds)
        ensures
            forall|id: PaneId| !folded(r, id),
    {
        Folds { editor: false, tutorial: false, nodes: false, help: false, settings: false }
    }

    pub fn is_folded(&self, id: PaneId) -> (r: bool)
        ensures
            r == folded(*self, id),
    {
        match id {
            PaneId::Editor => self.editor,
            PaneId::Tutorial => self.tutorial,
            PaneId::Nodes => self.nodes,
            PaneId::Help => self.help,
            PaneId::Settings => self.settings,
        }
    }

    /// Folds the pane, or unfolds it if it is folded.
    pub fn toggle(&mut self, id: PaneId)
        ensures
            *final(self) == fold_toggled(*old(self), id),
    {
        match id {
            PaneId::Editor => {
                self.editor = !self.editor;
            },
            PaneId::Tutorial => {
                self.tutorial = !self.tutorial;
            },
            PaneId::Nodes => {
                self.nodes = !self.nodes;
            },
            PaneId::Help => {
                self.help = !self.help;
            },
            PaneId::Settings => {
                self.settings = !self.settings;
            },
        }
    }
}

/// A click on a title bar folds or unfolds that pane and no other, and a second
/// one undoes it.
pub proof fn law_folding_touches_one_pane(f: Folds, id: PaneId, other: PaneId)
    ensures
        folded(fold_toggled(f, id), id) == !folded(f, id),
        other != id ==> folded(fold_toggled(f, id), other) == folded(f, other),
        fold_toggled(fold_toggled(f, id), id) == f,
{
}

/// What assistive technology reads of the cue pane.
pub fn cues_label(text: &str) -> (r: String)
    ensures
        r@ == "Cues log. "@ + text@,
{
    String::from_str("Cues log. ").concat(text)
}

/// The button that copies a pane.
pub fn copy_all_label(i18n: &I18n) -> (r: String)
    ensures
        r@ == "⧉ "@ + translated(i18n.table@, "Copy All"@),
{
    String::from_str("⧉ ").concat(i18n.tr("Copy All"))
}

/// The title bar of a pane, with the mark that tells whether it is folded.
pub fn title_bar(title: &str, collapsed: bool) -> (r: String)
    ensures
        r@ == (if collapsed {
            "▸"@
        } else {
            "▾"@
        }) + " "@ + title@,
{
    let mut t: String = String::from_str(
        if collapsed {
            "▸"
        } else {
            "▾"
        },
    );
    t.append(" ");
    t.append(title);
    t
}

} // verus!
