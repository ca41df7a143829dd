//! The dispatcher: key-sequence resolution, mode routing, pre-edit
//! capture, and the glue that turns one action into state changes plus
//! outgoing file requests.

use vstd::prelude::*;
use vstd::string::StrSliceExecFns;

use crate::action::AppAction;
use crate::action::BufferAction;
use crate::action::EditorAction;
use crate::action::FileAction;
use crate::action::FileLoadSource;
use crate::action::Flow;
use crate::action::IoRequest;
use crate::action::LayoutAction;
use crate::action::SystemAction;
use crate::action::TabAction;
use crate::action::WindowAction;
use crate::history::BufferEditSnapshot;
use crate::history::BufferHistoryEntry;
use crate::key::KeyCode;
use crate::key::KeyEvent;
use crate::state::AppState;
use crate::state::BufferId;
use crate::state::BufferState;
use crate::state::BufferSwitchDirection;
use crate::state::StatusBarState;
use crate::state::CursorState;
use crate::state::EditorMode;
use crate::state::FocusDirection;
use crate::state::NormalSequenceKey;
use crate::state::PendingInsertUndoGroup;
use crate::state::SplitAxis;
use crate::strutil::char_is_ascii_lower;
use crate::strutil::char_to_lower;
use crate::strutil::char_to_upper;
use crate::strutil::fnv1a_of;
use crate::strutil::is_ascii_lower;
use crate::strutil::lower_char;
use crate::strutil::upper_char;
use vstd::string::StringSliceAdditionalSpecFns;

verus! {

/// The outcome of matching a key chord against the command table.
#[derive(Debug, PartialEq, Eq)]
pub enum SequenceMatch {
    Action(AppAction),
    Pending,
    NoMatch,
}

/// The dispatcher's own state; the editor state travels alongside it.
pub struct ActionHandlerState {}

impl ActionHandlerState {
    pub fn new() -> (r: Self) {
        ActionHandlerState {  }
    }
}

/// The token a keystroke contributes to a normal-mode chord: the leader
/// key maps to the leader token ahead of any literal reading, control
/// chords fold to lowercase, shifted letters to uppercase; alt aborts.
pub open spec fn spec_to_normal_key(leader: char, key: KeyEvent) -> Option<NormalSequenceKey> {
    if key.alt {
        None
    } else if key.ctrl {
        match key.code {
            KeyCode::Char(ch) => Some(NormalSequenceKey::Ctrl(lower_char(ch))),
            _ => None,
        }
    } else {
        match key.code {
            KeyCode::Char(ch) => {
                if ch == leader {
                    Some(NormalSequenceKey::Leader)
                } else if key.shift && is_ascii_lower(ch) {
                    Some(NormalSequenceKey::Char(upper_char(ch)))
                } else {
                    Some(NormalSequenceKey::Char(ch))
                }
            },
            KeyCode::Tab => Some(NormalSequenceKey::Tab),
            _ => None,
        }
    }
}

/// The token a keystroke contributes to a normal-mode chord.
pub fn to_normal_key(state: &AppState, key: KeyEvent) -> (r: Option<NormalSequenceKey>)
    ensures
        r == spec_to_normal_key(state.leader_key, key),
{
    if key.alt {
        return None;
    }
    if key.ctrl {
        return match key.code {
            KeyCode::Char(ch) => Some(NormalSequenceKey::Ctrl(char_to_lower(ch))),
            _ => None,
        };
    }
    match key.code {
        KeyCode::Char(ch) => {
            if ch == state.leader_key {
                Some(NormalSequenceKey::Leader)
            } else if key.shift && char_is_ascii_lower(ch) {
                Some(NormalSequenceKey::Char(char_to_upper(ch)))
            } else {
                Some(NormalSequenceKey::Char(ch))
            }
        },
        KeyCode::Tab => Some(NormalSequenceKey::Tab),
        _ => None,
    }
}

/// The command table: what a token sequence resolves to.
pub open spec fn spec_resolve(keys: Seq<NormalSequenceKey>) -> SequenceMatch {
    if keys == seq![NormalSequenceKey::Leader] {
        SequenceMatch::Pending
    } else if keys == seq![NormalSequenceKey::Leader, NormalSequenceKey::Char('w')] {
        SequenceMatch::Pending
    } else if keys == seq![
        NormalSequenceKey::Leader,
        NormalSequenceKey::Char('w'),
        NormalSequenceKey::Char('v'),
    ] {
        SequenceMatch::Action(AppAction::Layout(LayoutAction::SplitVertical))
    } else if keys == seq![
        NormalSequenceKey::Leader,
        NormalSequenceKey::Char('w'),
        NormalSequenceKey::Char('h'),
    ] {
        SequenceMatch::Action(AppAction::Layout(LayoutAction::SplitHorizontal))
    } else if keys == seq![NormalSequenceKey::Leader, NormalSequenceKey::Tab] {
        SequenceMatch::Pending
    } else if keys == seq![
        NormalSequenceKey::Leader,
        NormalSequenceKey::Tab,
        NormalSequenceKey::Char('n'),
    ] {
        SequenceMatch::Action(AppAction::Tab(TabAction::New))
    } else if keys == seq![
        NormalSequenceKey::Leader,
        NormalSequenceKey::Tab,
        NormalSequenceKey::Char('d'),
    ] {
        SequenceMatch::Action(AppAction::Tab(TabAction::CloseCurrent))
    } else if keys == seq![
        NormalSequenceKey::Leader,
        NormalSequenceKey::Tab,
        NormalSequenceKey::Char('['),
    ] {
        SequenceMatch::Action(AppAction::Tab(TabAction::SwitchPrev))
    } else if keys == seq![
        NormalSequenceKey::Leader,
        NormalSequenceKey::Tab,
        NormalSequenceKey::Char(']'),
    ] {
        SequenceMatch::Action(AppAction::Tab(TabAction::SwitchNext))
    } else if keys == seq![NormalSequenceKey::Leader, NormalSequenceKey::Char('b')] {
        SequenceMatch::Pending
    } else if keys == seq![
        NormalSequenceKey::Leader,
        NormalSequenceKey::Char('b'),
        NormalSequenceKey::Char('d'),
    ] {
        SequenceMatch::Action(AppAction::Editor(EditorAction::CloseActiveBuffer))
    } else if keys == seq![
        NormalSequenceKey::Leader,
        NormalSequenceKey::Char('b'),
        NormalSequenceKey::Char('n'),
    ] {
        SequenceMatch::Action(AppAction::Editor(EditorAction::NewEmptyBuffer))
    } else if keys == seq![NormalSequenceKey::Char('d')] {
        SequenceMatch::Pending
    } else if keys == seq![NormalSequenceKey::Char('d'), NormalSequenceKey::Char('d')] {
        SequenceMatch::Action(AppAction::Editor(EditorAction::DeleteCurrentLineToSlot))
    } else if keys == seq![NormalSequenceKey::Char('i')] {
        SequenceMatch::Action(AppAction::Editor(EditorAction::EnterInsert))
    } else if keys == seq![NormalSequenceKey::Char('a')] {
        SequenceMatch::Action(AppAction::Editor(EditorAction::AppendInsert))
    } else if keys == seq![NormalSequenceKey::Char('o')] {
        SequenceMatch::Action(AppAction::Editor(EditorAction::OpenLineBelowInsert))
    } else if keys == seq![NormalSequenceKey::Char('O')] {
        SequenceMatch::Action(AppAction::Editor(EditorAction::OpenLineAboveInsert))
    } else if keys == seq![NormalSequenceKey::Char(':')] {
        SequenceMatch::Action(AppAction::Editor(EditorAction::EnterCommandMode))
    } else if keys == seq![NormalSequenceKey::Char('v')] {
        SequenceMatch::Action(AppAction::Editor(EditorAction::EnterVisualMode))
    } else if keys == seq![NormalSequenceKey::Char('V')] {
        SequenceMatch::Action(AppAction::Editor(EditorAction::EnterVisualLineMode))
    } else if keys == seq![NormalSequenceKey::Char('u')] {
        SequenceMatch::Action(AppAction::Editor(EditorAction::Undo))
    } else if keys == seq![NormalSequenceKey::Char('h')] {
        SequenceMatch::Action(AppAction::Editor(EditorAction::MoveLeft))
    } else if keys == seq![NormalSequenceKey::Char('0')] {
        SequenceMatch::Action(AppAction::Editor(EditorAction::MoveLineStart))
    } else if keys == seq![NormalSequenceKey::Char('$')] {
        SequenceMatch::Action(AppAction::Editor(EditorAction::MoveLineEnd))
    } else if keys == seq![NormalSequenceKey::Char('j')] {
        SequenceMatch::Action(AppAction::Editor(EditorAction::MoveDown))
    } else if keys == seq![NormalSequenceKey::Char('k')] {
        SequenceMatch::Action(AppAction::Editor(EditorAction::MoveUp))
    } else if keys == seq![NormalSequenceKey::Char('l')] {
        SequenceMatch::Action(AppAction::Editor(EditorAction::MoveRight))
    } else if keys == seq![NormalSequenceKey::Char('g')] {
        SequenceMatch::Pending
    } else if keys == seq![NormalSequenceKey::Char('g'), NormalSequenceKey::Char('g')] {
        SequenceMatch::Action(AppAction::Editor(EditorAction::MoveFileStart))
    } else if keys == seq![NormalSequenceKey::Char('G')] {
        SequenceMatch::Action(AppAction::Editor(EditorAction::MoveFileEnd))
    } else if keys == seq![NormalSequenceKey::Char('J')] {
        SequenceMatch::Action(AppAction::Editor(EditorAction::JoinLineBelow))
    } else if keys == seq![NormalSequenceKey::Char('x')] {
        SequenceMatch::Action(AppAction::Editor(EditorAction::CutCharToSlot))
    } else if keys == seq![NormalSequenceKey::Char('p')] {
        SequenceMatch::Action(AppAction::Editor(EditorAction::PasteSlotAfterCursor))
    } else if keys == seq![NormalSequenceKey::Char('H')] {
        SequenceMatch::Action(AppAction::Buffer(BufferAction::SwitchPrev))
    } else if keys == seq![NormalSequenceKey::Char('L')] {
        SequenceMatch::Action(AppAction::Buffer(BufferAction::SwitchNext))
    } else if keys == seq![NormalSequenceKey::Char('{')] {
        SequenceMatch::Action(AppAction::Buffer(BufferAction::SwitchPrev))
    } else if keys == seq![NormalSequenceKey::Char('}')] {
        SequenceMatch::Action(AppAction::Buffer(BufferAction::SwitchNext))
    } else if keys == seq![NormalSequenceKey::Ctrl('h')] {
        SequenceMatch::Action(AppAction::Window(WindowAction::FocusLeft))
    } else if keys == seq![NormalSequenceKey::Ctrl('j')] {
        SequenceMatch::Action(AppAction::Window(WindowAction::FocusDown))
    } else if keys == seq![NormalSequenceKey::Ctrl('k')] {
        SequenceMatch::Action(AppAction::Window(WindowAction::FocusUp))
    } else if keys == seq![NormalSequenceKey::Ctrl('l')] {
        SequenceMatch::Action(AppAction::Window(WindowAction::FocusRight))
    } else if keys == seq![NormalSequenceKey::Ctrl('e')] {
        SequenceMatch::Action(AppAction::Editor(EditorAction::ScrollViewDown))
    } else if keys == seq![NormalSequenceKey::Ctrl('y')] {
        SequenceMatch::Action(AppAction::Editor(EditorAction::ScrollViewUp))
    } else if keys == seq![NormalSequenceKey::Ctrl('d')] {
        SequenceMatch::Action(AppAction::Editor(EditorAction::ScrollViewHalfPageDown))
    } else if keys == seq![NormalSequenceKey::Ctrl('u')] {
        SequenceMatch::Action(AppAction::Editor(EditorAction::ScrollViewHalfPageUp))
    } else if keys == seq![NormalSequenceKey::Ctrl('r')] {
        SequenceMatch::Action(AppAction::Editor(EditorAction::Redo))
    } else {
        SequenceMatch::NoMatch
    }
}

fn key_at(keys: &Vec<NormalSequenceKey>, i: usize) -> (r: NormalSequenceKey)
    requires
        i < keys@.len(),
    ensures
        r == keys@[i as int],
{
    keys[i]
}

/// Matches a chord against the command table.
pub fn resolve_normal_sequence(keys: &Vec<NormalSequenceKey>) -> (r: SequenceMatch)
    ensures
        r == spec_resolve(keys@),
{
    let n = keys.len();
    if n == 1 {
        let k0 = key_at(keys, 0);
        proof {
            assert(keys@ =~= seq![keys@[0]]);
        }
        match k0 {
            NormalSequenceKey::Leader => SequenceMatch::Pending,
            NormalSequenceKey::Tab => SequenceMatch::NoMatch,
            NormalSequenceKey::Char(c) => {
                if c == 'd' || c == 'g' {
                    SequenceMatch::Pending
                } else if c == 'i' {
                    SequenceMatch::Action(AppAction::Editor(EditorAction::EnterInsert))
                } else if c == 'a' {
                    SequenceMatch::Action(AppAction::Editor(EditorAction::AppendInsert))
                } else if c == 'o' {
                    SequenceMatch::Action(AppAction::Editor(EditorAction::OpenLineBelowInsert))
                } else if c == 'O' {
                    SequenceMatch::Action(AppAction::Editor(EditorAction::OpenLineAboveInsert))
                } else if c == ':' {
                    SequenceMatch::Action(AppAction::Editor(EditorAction::EnterCommandMode))
                } else if c == 'v' {
                    SequenceMatch::Action(AppAction::Editor(EditorAction::EnterVisualMode))
                } else if c == 'V' {
                    SequenceMatch::Action(AppAction::Editor(EditorAction::EnterVisualLineMode))
                } else if c == 'u' {
                    SequenceMatch::Action(AppAction::Editor(EditorAction::Undo))
                } else if c == 'h' {
                    SequenceMatch::Action(AppAction::Editor(EditorAction::MoveLeft))
                } else if c == '0' {
                    SequenceMatch::Action(AppAction::Editor(EditorAction::MoveLineStart))
                } else if c == '$' {
                    SequenceMatch::Action(AppAction::Editor(EditorAction::MoveLineEnd))
                } else if c == 'j' {
                    SequenceMatch::Action(AppAction::Editor(EditorAction::MoveDown))
                } else if c == 'k' {
                    SequenceMatch::Action(AppAction::Editor(EditorAction::MoveUp))
                } else if c == 'l' {
                    SequenceMatch::Action(AppAction::Editor(EditorAction::MoveRight))
                } else if c == 'G' {
                    SequenceMatch::Action(AppAction::Editor(EditorAction::MoveFileEnd))
                } else if c == 'J' {
                    SequenceMatch::Action(AppAction::Editor(EditorAction::JoinLineBelow))
                } else if c == 'x' {
                    SequenceMatch::Action(AppAction::Editor(EditorAction::CutCharToSlot))
                } else if c == 'p' {
                    SequenceMatch::Action(AppAction::Editor(EditorAction::PasteSlotAfterCursor))
                } else if c == 'H' {
                    SequenceMatch::Action(AppAction::Buffer(BufferAction::SwitchPrev))
                } else if c == 'L' {
                    SequenceMatch::Action(AppAction::Buffer(BufferAction::SwitchNext))
                } else if c == '{' {
                    SequenceMatch::Action(AppAction::Buffer(BufferAction::SwitchPrev))
                } else if c == '}' {
                    SequenceMatch::Action(AppAction::Buffer(BufferAction::SwitchNext))
                } else {
                    SequenceMatch::NoMatch
                }
            },
            NormalSequenceKey::Ctrl(c) => {
                if c == 'h' {
                    SequenceMatch::Action(AppAction::Window(WindowAction::FocusLeft))
                } else if c == 'j' {
                    SequenceMatch::Action(AppAction::Window(WindowAction::FocusDown))
                } else if c == 'k' {
                    SequenceMatch::Action(AppAction::Window(WindowAction::FocusUp))
                } else if c == 'l' {
                    SequenceMatch::Action(AppAction::Window(WindowAction::FocusRight))
                } else if c == 'e' {
                    SequenceMatch::Action(AppAction::Editor(EditorAction::ScrollViewDown))
                } else if c == 'y' {
                    SequenceMatch::Action(AppAction::Editor(EditorAction::ScrollViewUp))
                } else if c == 'd' {
                    SequenceMatch::Action(AppAction::Editor(EditorAction::ScrollViewHalfPageDown))
                } else if c == 'u' {
                    SequenceMatch::Action(AppAction::Editor(EditorAction::ScrollViewHalfPageUp))
                } else if c == 'r' {
                    SequenceMatch::Action(AppAction::Editor(EditorAction::Redo))
                } else {
                    SequenceMatch::NoMatch
                }
            },
        }
    } else if n == 2 {
        let k0 = key_at(keys, 0);
        let k1 = key_at(keys, 1);
        proof {
            assert(keys@ =~= seq![keys@[0], keys@[1]]);
        }
        if k0 == NormalSequenceKey::Leader && k1 == NormalSequenceKey::Char('w') {
            SequenceMatch::Pending
        } else if k0 == NormalSequenceKey::Leader && k1 == NormalSequenceKey::Tab {
            SequenceMatch::Pending
        } else if k0 == NormalSequenceKey::Leader && k1 == NormalSequenceKey::Char('b') {
            SequenceMatch::Pending
        } else if k0 == NormalSequenceKey::Char('d') && k1 == NormalSequenceKey::Char('d') {
            SequenceMatch::Action(AppAction::Editor(EditorAction::DeleteCurrentLineToSlot))
        } else if k0 == NormalSequenceKey::Char('g') && k1 == NormalSequenceKey::Char('g') {
            SequenceMatch::Action(AppAction::Editor(EditorAction::MoveFileStart))
        } else {
            SequenceMatch::NoMatch
        }
    } else if n == 3 {
        let k0 = key_at(keys, 0);
        let k1 = key_at(keys, 1);
        let k2 = key_at(keys, 2);
        proof {
            assert(keys@ =~= seq![keys@[0], keys@[1], keys@[2]]);
        }
        if k0 == NormalSequenceKey::Leader && k1 == NormalSequenceKey::Char('w') && k2
            == NormalSequenceKey::Char('v') {
            SequenceMatch::Action(AppAction::Layout(LayoutAction::SplitVertical))
        } else if k0 == NormalSequenceKey::Leader && k1 == NormalSequenceKey::Char('w') && k2
            == NormalSequenceKey::Char('h') {
            SequenceMatch::Action(AppAction::Layout(LayoutAction::SplitHorizontal))
        } else if k0 == NormalSequenceKey::Leader && k1 == NormalSequenceKey::Tab && k2
            == NormalSequenceKey::Char('n') {
            SequenceMatch::Action(AppAction::Tab(TabAction::New))
        } else if k0 == NormalSequenceKey::Leader && k1 == NormalSequenceKey::Tab && k2
            == NormalSequenceKey::Char('d') {
            SequenceMatch::Action(AppAction::Tab(TabAction::CloseCurrent))
        } else if k0 == NormalSequenceKey::Leader && k1 == NormalSequenceKey::Tab && k2
            == NormalSequenceKey::Char('[') {
            SequenceMatch::Action(AppAction::Tab(TabAction::SwitchPrev))
        } else if k0 == NormalSequenceKey::Leader && k1 == NormalSequenceKey::Tab && k2
            == NormalSequenceKey::Char(']') {
            SequenceMatch::Action(AppAction::Tab(TabAction::SwitchNext))
        } else if k0 == NormalSequenceKey::Leader && k1 == NormalSequenceKey::Char('b') && k2
            == NormalSequenceKey::Char('d') {
            SequenceMatch::Action(AppAction::Editor(EditorAction::CloseActiveBuffer))
        } else if k0 == NormalSequenceKey::Leader && k1 == NormalSequenceKey::Char('b') && k2
            == NormalSequenceKey::Char('n') {
            SequenceMatch::Action(AppAction::Editor(EditorAction::NewEmptyBuffer))
        } else {
            SequenceMatch::NoMatch
        }
    } else {
        proof {
            lemma_resolve_long_no_match(keys@);
        }
        SequenceMatch::NoMatch
    }
}

proof fn lemma_resolve_long_no_match(keys: Seq<NormalSequenceKey>)
    requires
        keys.len() == 0 || keys.len() > 3,
    ensures
        spec_resolve(keys) == SequenceMatch::NoMatch,
{
}

/// The pending chord as the status line echoes it.
pub open spec fn spec_render_key(k: NormalSequenceKey) -> Seq<char> {
    match k {
        NormalSequenceKey::Leader => "<leader>"@,
        NormalSequenceKey::Tab => "<tab>"@,
        NormalSequenceKey::Char(c) => seq![c],
        NormalSequenceKey::Ctrl(c) => "<C-"@ + seq![c] + ">"@,
    }
}

pub open spec fn spec_render_keys(keys: Seq<NormalSequenceKey>) -> Seq<char>
    decreases keys.len(),
{
    if keys.len() == 0 {
        Seq::empty()
    } else {
        spec_render_keys(keys.drop_last()) + spec_render_key(keys.last())
    }
}

/// The pending chord as text, each token in its echoed form.
pub fn render_normal_sequence(keys: &Vec<NormalSequenceKey>) -> (r: String)
    ensures
        r@ == spec_render_keys(keys@),
{
    let mut out = String::new();
    let n = keys.len();
    let mut i: usize = 0;
    proof {
        assert(keys@.take(0) =~= Seq::<NormalSequenceKey>::empty());
    }
    while i < n
        invariant
            n == keys@.len(),
            0 <= i <= n,
            out@ == spec_render_keys(keys@.take(i as int)),
        decreases n - i,
    {
        proof {
            reveal_strlit("<leader>");
            reveal_strlit("<tab>");
            reveal_strlit("<C-");
            reveal_strlit(">");
            assert(keys@.take(i + 1).drop_last() =~= keys@.take(i as int));
            assert(keys@.take(i + 1).last() == keys@[i as int]);
        }
        match key_at(keys, i) {
            NormalSequenceKey::Leader => {
                out.append("<leader>");
            },
            NormalSequenceKey::Tab => {
                out.append("<tab>");
            },
            NormalSequenceKey::Char(c) => {
                crate::strutil::push_char(&mut out, c);
                proof {
                    assert(out@ =~= spec_render_keys(keys@.take(i as int)) + seq![c]);
                }
            },
            NormalSequenceKey::Ctrl(c) => {
                out.append("<C-");
                crate::strutil::push_char(&mut out, c);
                out.append(">");
                proof {
                    assert(out@ =~= spec_render_keys(keys@.take(i as int)) + ("<C-"@ + seq![c]
                        + ">"@));
                }
            },
        }
        i = i + 1;
    }
    proof {
        assert(keys@.take(n as int) =~= keys@);
    }
    out
}

/// The content fingerprint used to tell a save's own filesystem echo from
/// a genuine external change: a 64-bit accumulation over the text's bytes.
pub fn text_fingerprint(text: &str) -> (r: u64)
    ensures
        r == fnv1a_of(text.spec_bytes()),
{
    proof {
        broadcast use vstd::slice::axiom_spec_len;
    }
    let bytes = text.as_bytes();
    let n = bytes.len();
    let mut h: u64 = 0xcbf29ce484222325;
    let mut i: usize = 0;
    proof {
        assert(bytes@.take(0) =~= Seq::<u8>::empty());
    }
    while i < n
        invariant
            n == bytes@.len(),
            bytes@ == text.spec_bytes(),
            0 <= i <= n,
            h == fnv1a_of(bytes@.take(i as int)),
        decreases n - i,
    {
        let b = *vstd::slice::slice_index_get(bytes, i);
        proof {
            assert(bytes@.take(i + 1).drop_last() =~= bytes@.take(i as int));
            assert(bytes@.take(i + 1).last() == bytes@[i as int]);
        }
        h = (h ^ (b as u64)).wrapping_mul(0x100000001b3);
        i = i + 1;
    }
    proof {
        assert(bytes@.take(n as int) =~= bytes@);
    }
    h
}


/// What routing one action does, action by action: editor commands take
/// their `editor_effect`, layout/window/buffer/tab actions their state
/// operations' postconditions, file events their handlers' postconditions;
/// only the quit action and a quit-after-save completion end the loop.
pub open spec fn dispatch_post(
    pre: AppState,
    post: AppState,
    action: AppAction,
    out0: Seq<IoRequest>,
    out1: Seq<IoRequest>,
    r: Flow,
) -> bool {
    match action {
        AppAction::Editor(a) => editor_effect(pre, post, a, out0, out1) && (a matches
            EditorAction::KeyPressed(k) ==> r == Flow::Continue),
        AppAction::Layout(LayoutAction::SplitHorizontal) => out1 == out0 && r == Flow::Continue
            && (pre.s_tab(pre.active_tab) is Some ==> post.status_bar.message@
            == "split horizontal"@),
        AppAction::Layout(LayoutAction::SplitVertical) => out1 == out0 && r == Flow::Continue && (
        pre.s_tab(pre.active_tab) is Some ==> post.status_bar.message@ == "split vertical"@),
        AppAction::Layout(LayoutAction::ViewportResized { .. }) => out1 == out0 && post == pre
            && r == Flow::Continue,
        AppAction::Window(WindowAction::CloseActive) => out1 == out0 && r == Flow::Continue && (
        pre.s_tab(pre.active_tab) matches Some(t) ==> (t.windows@.len() <= 1 ==> post == pre)),
        AppAction::Window(w) => out1 == out0 && r == Flow::Continue && post == (AppState {
            tabs: post.tabs,
            ..pre
        }),
        AppAction::Buffer(b) => out1 == out0 && r == Flow::Continue && (pre.buffer_order@.len()
            == 0 ==> post == pre),
        AppAction::Tab(TabAction::New) => out1 == out0 && r == Flow::Continue
            && post.status_bar.message@ == "new tab"@,
        AppAction::Tab(TabAction::CloseCurrent) => out1 == out0 && r == Flow::Continue && (
        pre.tabs@.len() <= 1 ==> post == pre),
        AppAction::Tab(t) => out1 == out0 && r == Flow::Continue && post == (AppState {
            active_tab: post.active_tab,
            ..pre
        }),
        AppAction::File(FileAction::OpenRequested { path }) => r == Flow::Continue
            && open_requested_post(pre, post, path, out0, out1),
        AppAction::File(FileAction::ExternalChangeDetected { buffer_id, path }) => r
            == Flow::Continue && external_change_post(pre, post, buffer_id, path, out0, out1),
        AppAction::File(FileAction::LoadCompleted { buffer_id, source, result }) => r
            == Flow::Continue && load_completed_post(
            pre,
            post,
            buffer_id,
            source,
            result,
            out0,
            out1,
        ),
        AppAction::File(FileAction::SaveCompleted { buffer_id, result }) => save_completed_post(
            pre,
            post,
            buffer_id,
            result,
            out0,
            out1,
        ) && (result matches Ok(u) ==> (r == Flow::Quit <==> pre.quit_after_save)) && (result
            is Err ==> r == Flow::Continue),
        AppAction::System(SystemAction::Quit) => out1 == out0 && post == pre && r == Flow::Quit,
    }
}

/// What news of an external change does: it is dropped while this
/// editor's own save is in flight or the buffer is unknown, deferred with
/// a warning when the buffer is dirty, and otherwise answered with a
/// reload request.
pub open spec fn external_change_post(
    pre: AppState,
    post: AppState,
    buffer_id: BufferId,
    path: String,
    out0: Seq<IoRequest>,
    out1: Seq<IoRequest>,
) -> bool {
    if has_id(pre.in_flight_internal_saves@, buffer_id) {
        post == pre && out1 == out0
    } else {
        match pre.s_buf(buffer_id) {
            None => post == pre && out1 == out0,
            Some(b) => {
                if b.dirty {
                    out1 == out0 && post.s_buf(buffer_id) == Some(
                        BufferState { externally_modified: true, ..b },
                    ) && (forall|b2: BufferId|
                        b2 != buffer_id ==> post.s_buf(b2) == pre.s_buf(b2))
                } else {
                    out1.len() == out0.len() + 1 && out1.take(out0.len() as int) == out0 && (
                    out1.last() matches IoRequest::Load { buffer_id: lb, path: lp, source } && lb
                        == buffer_id && lp == path && source == FileLoadSource::External)
                        && post == pre
                }
            },
        }
    }
}


/// Besides the chord and its echo, nothing changed.
pub open spec fn chord_only(pre: AppState, post: AppState) -> bool {
    &&& post == (AppState {
        normal_sequence: post.normal_sequence,
        status_bar: post.status_bar,
        ..pre
    })
    &&& post.status_bar == (StatusBarState {
        key_sequence: post.status_bar.key_sequence,
        ..pre.status_bar
    })
}

/// The resolved command's dispatch ran from the state with the chord and
/// echo cleared: some empty chord and echo stand in for the cleared ones.
pub open spec fn dispatched_from_cleared(
    pre: AppState,
    post: AppState,
    a: AppAction,
    out0: Seq<IoRequest>,
    out1: Seq<IoRequest>,
    r: Flow,
) -> bool {
    exists|ns: Vec<NormalSequenceKey>, ks: String|
        ns@.len() == 0 && ks@.len() == 0 && #[trigger] dispatch_post(
            AppState {
                normal_sequence: ns,
                status_bar: StatusBarState { key_sequence: ks, ..pre.status_bar },
                ..pre
            },
            post,
            a,
            out0,
            out1,
            r,
        )
}


/// What one insert-mode keystroke does, key by key: escape leaves insert
/// mode with the cursor clamped, editing keys edit at the cursor, arrow
/// keys move, and control chords do nothing.
pub open spec fn insert_key_effect(pre: AppState, post: AppState, key: KeyEvent) -> bool {
    if key.ctrl {
        post == pre
    } else {
        match key.code {
            KeyCode::Esc => post.mode == EditorMode::Normal && post.visual_anchor is None
                && post.status_bar.mode@ == "NORMAL"@ && post.pending_insert_group
                == pre.pending_insert_group && (pre.s_active_buffer_id() matches Some(bid) ==> (
            pre.s_buf(bid) is Some ==> post.s_buf(bid) == Some(
                BufferState {
                    cursor: CursorState {
                        row: pre.s_active_cursor().row,
                        col: AppState::clamp_col(
                            pre.s_active_cursor().col as int,
                            pre.s_max_navigable_col_for_row(pre.s_active_cursor().row),
                        ),
                    },
                    ..pre.s_buf(bid).unwrap()
                },
            ))),
            KeyCode::Enter => AppState::buffer_edit_post(
                pre,
                post,
                AppState::insert_newline_text(
                    pre.s_active_text(),
                    AppState::sat_sub1(pre.s_active_cursor().row),
                    AppState::sat_sub1(pre.s_active_cursor().col),
                ),
                CursorState { row: pre.s_active_cursor().row.saturating_add(1u16), col: 1u16 },
            ) || pre.s_active_buffer() is None && post == pre,
            KeyCode::Backspace => AppState::backspace_post(pre, post),
            KeyCode::Left => post.preferred_col is None && AppState::cursor_only_post(
                pre,
                post,
                CursorState {
                    row: pre.s_active_cursor().row,
                    col: if pre.s_active_cursor().col > 1 {
                        (pre.s_active_cursor().col - 1) as u16
                    } else {
                        pre.s_active_cursor().col
                    },
                },
            ),
            KeyCode::Down => post.preferred_col == Some(pre.s_target_col()),
            KeyCode::Up => post.preferred_col == Some(pre.s_target_col()),
            KeyCode::Right => post.preferred_col is None && AppState::cursor_only_post(
                pre,
                post,
                CursorState {
                    row: pre.s_active_cursor().row,
                    col: if pre.s_active_cursor().col < pre.s_max_col_for_row(
                        pre.s_active_cursor().row,
                    ) {
                        (pre.s_active_cursor().col + 1) as u16
                    } else {
                        pre.s_active_cursor().col
                    },
                },
            ),
            KeyCode::Tab => AppState::buffer_edit_post(
                pre,
                post,
                AppState::insert_char_text(
                    pre.s_active_text(),
                    AppState::sat_sub1(pre.s_active_cursor().row),
                    AppState::sat_sub1(pre.s_active_cursor().col),
                    '\t',
                ),
                CursorState {
                    row: pre.s_active_cursor().row,
                    col: pre.s_active_cursor().col.saturating_add(1u16),
                },
            ) || pre.s_active_buffer() is None && post == pre,
            KeyCode::Char(ch) => AppState::buffer_edit_post(
                pre,
                post,
                AppState::insert_char_text(
                    pre.s_active_text(),
                    AppState::sat_sub1(pre.s_active_cursor().row),
                    AppState::sat_sub1(pre.s_active_cursor().col),
                    ch,
                ),
                CursorState {
                    row: pre.s_active_cursor().row,
                    col: pre.s_active_cursor().col.saturating_add(1u16),
                },
            ) || pre.s_active_buffer() is None && post == pre,
            _ => post == pre,
        }
    }
}

/// What one visual-mode keystroke does, key by key, each judged from the
/// state with the pending `g` flag cleared (every visual key clears it
/// except a first `g`).
pub open spec fn visual_key_effect(pre: AppState, post: AppState, key: KeyEvent) -> bool {
    let pg = AppState { visual_g_pending: false, ..pre };
    if key.ctrl {
        match key.code {
            KeyCode::Char(c) => {
                if c == 'e' || c == 'y' || c == 'd' || c == 'u' {
                    AppState::scroll_view_post(pg, post)
                } else {
                    post == pg
                }
            },
            _ => post == pg,
        }
    } else {
        match key.code {
            KeyCode::Esc => post == (AppState {
                mode: EditorMode::Normal,
                visual_anchor: None,
                status_bar: post.status_bar,
                ..pg
            }) && post.status_bar == (StatusBarState {
                mode: post.status_bar.mode,
                ..pre.status_bar
            }) && post.status_bar.mode@ == "NORMAL"@,
            KeyCode::Char(c) => {
                if c == 'd' {
                    AppState::visual_delete_post(pg, post)
                } else if c == 'y' {
                    AppState::visual_yank_post(pg, post)
                } else if c == 'p' {
                    AppState::visual_replace_post(pg, post)
                } else if c == 'g' {
                    (!pre.visual_g_pending ==> post == (AppState {
                        visual_g_pending: true,
                        ..pre
                    })) && (pre.visual_g_pending ==> post.visual_g_pending == false
                        && post.preferred_col == Some(pre.s_target_col()))
                } else if c == 'G' {
                    post.visual_g_pending == false && post.preferred_col == Some(
                        pre.s_target_col(),
                    )
                } else if c == 'j' || c == 'k' {
                    post.visual_g_pending == false && post.preferred_col == Some(
                        pre.s_target_col(),
                    )
                } else if c == 'h' || c == 'l' || c == '0' || c == '$' {
                    post.visual_g_pending == false && post.preferred_col is None
                } else if c == 'v' || c == 'V' {
                    post.mode == EditorMode::VisualLine && post.visual_g_pending == false
                        && post.status_bar.mode@ == "VISUAL LINE"@
                } else {
                    post == pg
                }
            },
            _ => post == pg,
        }
    }
}

/// Only the status message changed.
pub open spec fn message_only_post(pre: AppState, post: AppState, msg: Seq<char>) -> bool {
    &&& post == (AppState { status_bar: post.status_bar, ..pre })
    &&& post.status_bar == (StatusBarState { message: post.status_bar.message, ..pre.status_bar })
    &&& post.status_bar.message@ == msg
}

/// Command mode was left: the line is cleared, the mode is normal again
/// and the bar shows it; nothing else moved.
pub open spec fn command_mode_exit_post(pre: AppState, post: AppState) -> bool {
    &&& post == (AppState {
        mode: EditorMode::Normal,
        visual_anchor: None,
        command_line: post.command_line,
        status_bar: post.status_bar,
        ..pre
    })
    &&& post.command_line@ == Seq::<char>::empty()
    &&& post.status_bar == (StatusBarState { mode: post.status_bar.mode, ..pre.status_bar })
    &&& post.status_bar.mode@ == "NORMAL"@
}

/// The quit-family routing: a second split closes first, then a second
/// tab, and only a lone window in a lone tab quits the editor.
pub open spec fn close_or_quit_effect(
    pre: AppState,
    post: AppState,
    out0: Seq<IoRequest>,
    out1: Seq<IoRequest>,
    r: Flow,
) -> bool {
    let wins: nat = match pre.s_tab(pre.active_tab) {
        Some(t) => t.windows@.len(),
        None => 0,
    };
    if wins > 1 {
        dispatch_post(pre, post, AppAction::Window(WindowAction::CloseActive), out0, out1, r)
    } else if pre.tabs@.len() > 1 {
        dispatch_post(pre, post, AppAction::Tab(TabAction::CloseCurrent), out0, out1, r)
    } else {
        dispatch_post(pre, post, AppAction::System(SystemAction::Quit), out0, out1, r)
    }
}

/// What one submitted command line does to the state and the request
/// queue. The arms follow the command grammar in the order it is tried:
/// exact words first, then the path-taking forms.
pub open spec fn command_effect(
    pre: AppState,
    post: AppState,
    cmd: Seq<char>,
    out0: Seq<IoRequest>,
    out1: Seq<IoRequest>,
    r: Flow,
) -> bool {
    if cmd == ""@ {
        post == pre && out1 == out0 && r == Flow::Continue
    } else if cmd == "qa"@ {
        dispatch_post(pre, post, AppAction::System(SystemAction::Quit), out0, out1, r)
    } else if cmd == "q!"@ || cmd == "quit!"@ {
        close_or_quit_effect(pre, post, out0, out1, r)
    } else if cmd == "q"@ || cmd == "quit"@ {
        if exists|i: int| 0 <= i < pre.buffers@.len() && (#[trigger] pre.buffers@[i].val.dirty) {
            message_only_post(pre, post, "quit blocked: unsaved changes (use :q!)"@) && out1
                == out0 && r == Flow::Continue
        } else {
            close_or_quit_effect(pre, post, out0, out1, r)
        }
    } else if cmd == "w"@ {
        save_enqueue_post(pre, post, false, false, None, out0, out1) && r == Flow::Continue
    } else if cmd == "w!"@ {
        save_enqueue_post(pre, post, false, true, None, out0, out1) && r == Flow::Continue
    } else if cmd == "wa"@ {
        save_all_enqueue_post(pre, post, out0, out1) && r == Flow::Continue
    } else if cmd == "wq"@ {
        save_enqueue_post(pre, post, true, false, None, out0, out1) && r == Flow::Continue
    } else if cmd == "wq!"@ {
        save_enqueue_post(pre, post, true, true, None, out0, out1) && r == Flow::Continue
    } else if cmd == "e"@ {
        reload_enqueue_post(pre, post, false, out0, out1) && r == Flow::Continue
    } else if cmd == "e!"@ {
        reload_enqueue_post(pre, post, true, out0, out1) && r == Flow::Continue
    } else if crate::strutil::spec_starts(cmd, "e "@) {
        let path = crate::strutil::spec_trim(cmd.skip(2));
        if path.len() == 0 {
            message_only_post(pre, post, "open failed: empty path"@) && out1 == out0 && r
                == Flow::Continue
        } else {
            exists|p: String|
                p@ == path && #[trigger] dispatch_post(
                    pre,
                    post,
                    AppAction::File(FileAction::OpenRequested { path: p }),
                    out0,
                    out1,
                    r,
                )
        }
    } else if crate::strutil::spec_starts(cmd, "w! "@) {
        let path = crate::strutil::spec_trim(cmd.skip(3));
        if path.len() == 0 {
            message_only_post(pre, post, "save failed: empty path"@) && out1 == out0 && r
                == Flow::Continue
        } else {
            (exists|p: String|
                p@ == path && #[trigger] save_enqueue_post(
                    pre,
                    post,
                    false,
                    true,
                    Some(p),
                    out0,
                    out1,
                )) && r == Flow::Continue
        }
    } else if crate::strutil::spec_starts(cmd, "wq! "@) {
        let path = crate::strutil::spec_trim(cmd.skip(4));
        if path.len() == 0 {
            message_only_post(pre, post, "save failed: empty path"@) && out1 == out0 && r
                == Flow::Continue
        } else {
            (exists|p: String|
                p@ == path && #[trigger] save_enqueue_post(
                    pre,
                    post,
                    true,
                    true,
                    Some(p),
                    out0,
                    out1,
                )) && r == Flow::Continue
        }
    } else if crate::strutil::spec_starts(cmd, "wq "@) {
        let path = crate::strutil::spec_trim(cmd.skip(3));
        if path.len() == 0 {
            message_only_post(pre, post, "save failed: empty path"@) && out1 == out0 && r
                == Flow::Continue
        } else {
            (exists|p: String|
                p@ == path && #[trigger] save_enqueue_post(
                    pre,
                    post,
                    true,
                    false,
                    Some(p),
                    out0,
                    out1,
                )) && r == Flow::Continue
        }
    } else if crate::strutil::spec_starts(cmd, "w "@) {
        let path = crate::strutil::spec_trim(cmd.skip(2));
        if path.len() == 0 {
            message_only_post(pre, post, "save failed: empty path"@) && out1 == out0 && r
                == Flow::Continue
        } else {
            (exists|p: String|
                p@ == path && #[trigger] save_enqueue_post(
                    pre,
                    post,
                    false,
                    false,
                    Some(p),
                    out0,
                    out1,
                )) && r == Flow::Continue
        }
    } else {
        message_only_post(pre, post, "unknown command: "@ + cmd) && out1 == out0 && r
            == Flow::Continue
    }
}

/// A command-mode keystroke: escape leaves, enter runs the trimmed line,
/// backspace and characters edit it, anything else does nothing.
pub open spec fn command_key_effect(
    pre: AppState,
    post: AppState,
    key: KeyEvent,
    out0: Seq<IoRequest>,
    out1: Seq<IoRequest>,
    r: Flow,
) -> bool {
    if key.ctrl {
        post == pre && out1 == out0 && r == Flow::Continue
    } else {
        match key.code {
            KeyCode::Esc => command_mode_exit_post(pre, post) && out1 == out0 && r
                == Flow::Continue,
            KeyCode::Enter => exists|mid: AppState|
                #[trigger] command_mode_exit_post(pre, mid) && command_effect(
                    mid,
                    post,
                    crate::strutil::spec_trim(pre.command_line@),
                    out0,
                    out1,
                    r,
                ),
            KeyCode::Backspace => post == (AppState {
                command_line: post.command_line,
                ..pre
            }) && (pre.command_line@.len() == 0 ==> post.command_line@ == pre.command_line@) && (
            pre.command_line@.len() > 0 ==> post.command_line@ == pre.command_line@.drop_last())
                && out1 == out0 && r == Flow::Continue,
            KeyCode::Char(ch) => post == (AppState { command_line: post.command_line, ..pre })
                && post.command_line@ == pre.command_line@.push(ch) && out1 == out0 && r
                == Flow::Continue,
            _ => post == pre && out1 == out0 && r == Flow::Continue,
        }
    }
}

impl ActionHandlerState {
    /// Opens an insert-session group keyed to the active buffer, unless one
    /// is already open or no buffer is active.
    pub fn begin_insert_undo_group(state: &mut AppState)
        ensures
            *final(state) == (AppState {
                pending_insert_group: final(state).pending_insert_group,
                ..*old(state)
            }),
            old(state).pending_insert_group is Some ==> final(state).pending_insert_group == old(
                state,
            ).pending_insert_group,
            old(state).pending_insert_group is None && old(state).s_active_buffer_id() is None
                ==> final(state).pending_insert_group is None,
            old(state).s_active_buffer_id() matches Some(bid) ==> (old(
                state,
            ).pending_insert_group is None ==> (final(state).pending_insert_group matches Some(g)
                && g.buffer_id == bid && g.before_cursor == old(state).s_active_cursor()
                && g.edits@.len() == 0)),
    {
        if state.pending_insert_group.is_some() {
            return ;
        }
        let bid = match state.active_buffer_id() {
            Some(b) => b,
            None => {
                return ;
            },
        };
        let cursor = state.active_cursor();
        state.pending_insert_group = Some(
            PendingInsertUndoGroup { buffer_id: bid, before_cursor: cursor, edits: Vec::new() },
        );
    }

    /// Appends one snapshot to the open insert group, only when the group
    /// belongs to the same buffer; otherwise the snapshot is dropped.
    pub fn append_insert_undo_edit(state: &mut AppState, buffer_id: BufferId, edit: BufferEditSnapshot)
        ensures
            *final(state) == (AppState {
                pending_insert_group: final(state).pending_insert_group,
                ..*old(state)
            }),
            old(state).pending_insert_group is None ==> final(state).pending_insert_group is None,
            old(state).pending_insert_group matches Some(g) ==> (g.buffer_id != buffer_id
                ==> final(state).pending_insert_group == old(state).pending_insert_group),
            old(state).pending_insert_group matches Some(g) ==> (g.buffer_id == buffer_id ==> (
            final(state).pending_insert_group matches Some(g2) && g2.buffer_id == g.buffer_id
                && g2.before_cursor == g.before_cursor && g2.edits@ == g.edits@.push(edit))),
    {
        let same = match &state.pending_insert_group {
            Some(g) => g.buffer_id == buffer_id,
            None => false,
        };
        if !same {
            return ;
        }
        match &mut state.pending_insert_group {
            Some(g) => {
                g.edits.push(edit);
            },
            None => {},
        }
    }

    /// Closes the insert session: a group with edits becomes exactly one
    /// history entry (its edits in applied order, its opening cursor, the
    /// buffer's cursor now), pushed like any other entry; an empty group
    /// vanishes without touching history.
    pub fn commit_insert_undo_group(state: &mut AppState)
        ensures
            final(state).pending_insert_group is None,
            old(state).pending_insert_group is None ==> *final(state) == *old(state),
            old(state).pending_insert_group matches Some(g) ==> (g.edits@.len() == 0
                ==> *final(state) == (AppState { pending_insert_group: None, ..*old(state) })),
            old(state).pending_insert_group matches Some(g) ==> (g.edits@.len() > 0
                ==> AppState::push_history_post(
                AppState { pending_insert_group: None, ..*old(state) },
                *final(state),
                g.buffer_id,
                BufferHistoryEntry {
                    edits: g.edits,
                    before_cursor: g.before_cursor,
                    after_cursor: match old(state).s_buf(g.buffer_id) {
                        Some(b) => b.cursor,
                        None => g.before_cursor,
                    },
                },
            )),
    {
        let group = match state.pending_insert_group.take() {
            Some(g) => g,
            None => {
                return ;
            },
        };
        if group.edits.len() == 0 {
            return ;
        }
        let after_cursor = {
            let found = crate::store::find_idx(&state.buffers, group.buffer_id.0);
            match found {
                Some(bi) => state.buffers[bi].val.cursor,
                None => group.before_cursor,
            }
        };
        state.push_buffer_history_entry(
            group.buffer_id,
            BufferHistoryEntry {
                edits: group.edits,
                before_cursor: group.before_cursor,
                after_cursor,
            },
        );
    }
}


/// Byte position where row `row_idx` starts, as the text addresses it.
pub open spec fn spec_line_start_byte(t: Seq<char>, row_idx: int) -> int {
    crate::text::byte_len(
        t.take(crate::text::row_start_char(crate::text::lines_of(t), row_idx)),
    ) as int
}

/// Byte position of the cursor slot, clamped into its row.
pub open spec fn spec_slot_byte(t: Seq<char>, row: u16, col: u16) -> int {
    crate::text::byte_len(
        t.take(
            crate::text::slot_char_idx(t, AppState::sat_sub1(row), AppState::sat_sub1(col)),
        ),
    ) as int
}

/// The snapshot an insert-mode keystroke will need, as ghost parts:
/// byte position, removed characters, added characters.
pub open spec fn spec_insert_capture(state: AppState, key: KeyEvent) -> Option<
    (int, Seq<char>, Seq<char>),
> {
    let t = state.s_active_text();
    let cur = state.s_active_cursor();
    let row_idx = AppState::sat_sub1(cur.row);
    let col_idx = AppState::sat_sub1(cur.col);
    let ls = crate::text::lines_of(t);
    if key.ctrl || state.s_active_buffer() is None || row_idx >= ls.len() {
        None
    } else {
        match key.code {
            KeyCode::Char(ch) => Some((spec_slot_byte(t, cur.row, cur.col), Seq::empty(), seq![ch])),
            KeyCode::Tab => Some((spec_slot_byte(t, cur.row, cur.col), Seq::empty(), seq!['\t'])),
            KeyCode::Enter => Some(
                (spec_slot_byte(t, cur.row, cur.col), Seq::empty(), seq!['\n']),
            ),
            KeyCode::Backspace => {
                if cur.col > 1 {
                    let l = ls[row_idx];
                    Some(
                        (
                            spec_slot_byte(t, cur.row, (cur.col - 1) as u16),
                            l.subrange(
                                AppState::clamp_idx(col_idx - 1, l.len() as int),
                                AppState::clamp_idx(col_idx, l.len() as int),
                            ),
                            Seq::empty(),
                        ),
                    )
                } else if cur.row > 1 {
                    Some((spec_slot_byte(t, cur.row, 1u16) - 1, seq!['\n'], Seq::empty()))
                } else {
                    None
                }
            },
            _ => None,
        }
    }
}

/// Captures the snapshot an insert-mode keystroke is about to cause,
/// against the buffer as it stands.
pub fn capture_insert_mode_pre_edit(state: &AppState, key: KeyEvent) -> (r: Option<
    (BufferId, BufferEditSnapshot),
>)
    ensures
        r is Some <==> spec_insert_capture(*state, key) is Some,
        r matches Some(p) ==> spec_insert_capture(*state, key) matches Some(s) && Some(p.0)
            == state.s_active_buffer_id() && p.1.start_byte == s.0 && p.1.deleted_text@ == s.1
            && p.1.inserted_text@ == s.2,
{
    if key.ctrl {
        return None;
    }
    let bid = match state.active_buffer_id() {
        Some(b) => b,
        None => {
            return None;
        },
    };
    let bi = match crate::store::find_idx(&state.buffers, bid.0) {
        Some(i) => i,
        None => {
            return None;
        },
    };
    let cursor = state.buffers[bi].val.cursor;
    let text = &state.buffers[bi].val.text;
    let row_idx = (cursor.row.saturating_sub(1)) as usize;
    match key.code {
        KeyCode::Char(ch) => {
            let start = match crate::text::cursor_slot_to_byte_idx(
                text.as_str(),
                cursor.row,
                cursor.col,
            ) {
                Some(s) => s,
                None => {
                    return None;
                },
            };
            let mut ins = String::new();
            crate::strutil::push_char(&mut ins, ch);
            proof {
                assert(ins@ =~= seq![ch]);
            }
            Some(
                (
                    bid,
                    BufferEditSnapshot {
                        start_byte: start,
                        deleted_text: String::new(),
                        inserted_text: ins,
                    },
                ),
            )
        },
        KeyCode::Tab => {
            let start = match crate::text::cursor_slot_to_byte_idx(
                text.as_str(),
                cursor.row,
                cursor.col,
            ) {
                Some(s) => s,
                None => {
                    return None;
                },
            };
            let mut ins = String::new();
            crate::strutil::push_char(&mut ins, '\t');
            proof {
                assert(ins@ =~= seq!['\t']);
            }
            Some(
                (
                    bid,
                    BufferEditSnapshot {
                        start_byte: start,
                        deleted_text: String::new(),
                        inserted_text: ins,
                    },
                ),
            )
        },
        KeyCode::Enter => {
            let start = match crate::text::cursor_slot_to_byte_idx(
                text.as_str(),
                cursor.row,
                cursor.col,
            ) {
                Some(s) => s,
                None => {
                    return None;
                },
            };
            let mut ins = String::new();
            crate::strutil::push_char(&mut ins, '\n');
            proof {
                assert(ins@ =~= seq!['\n']);
            }
            Some(
                (
                    bid,
                    BufferEditSnapshot {
                        start_byte: start,
                        deleted_text: String::new(),
                        inserted_text: ins,
                    },
                ),
            )
        },
        KeyCode::Backspace => {
            if cursor.col > 1 {
                let start = match crate::text::cursor_slot_to_byte_idx(
                    text.as_str(),
                    cursor.row,
                    cursor.col - 1,
                ) {
                    Some(s) => s,
                    None => {
                        return None;
                    },
                };
                let line = match crate::text::line_text_at(text.as_str(), row_idx) {
                    Some(l) => l,
                    None => {
                        return None;
                    },
                };
                let col_idx = (cursor.col - 1) as usize;
                let ln = line.as_str().unicode_len();
                let ka = if col_idx - 1 > ln {
                    ln
                } else {
                    col_idx - 1
                };
                let kb = if col_idx > ln {
                    ln
                } else {
                    col_idx
                };
                let deleted = String::from_str(line.as_str().substring_char(ka, kb));
                proof {
                    let t = state.s_active_text();
                    let l = crate::text::lines_of(t)[row_idx as int];
                    assert(deleted@ =~= l.subrange(
                        AppState::clamp_idx(col_idx - 1, l.len() as int),
                        AppState::clamp_idx(col_idx as int, l.len() as int),
                    ));
                }
                Some(
                    (
                        bid,
                        BufferEditSnapshot {
                            start_byte: start,
                            deleted_text: deleted,
                            inserted_text: String::new(),
                        },
                    ),
                )
            } else if cursor.row > 1 {
                let start0 = match crate::text::cursor_slot_to_byte_idx(
                    text.as_str(),
                    cursor.row,
                    1,
                ) {
                    Some(s) => s,
                    None => {
                        return None;
                    },
                };
                proof {
                    let t = state.s_active_text();
                    let ls2 = crate::text::lines_of(t);
                    crate::text::lemma_row_start_char_pos(ls2, row_idx as int);
                    crate::text::lemma_row_slice(t, row_idx as int);
                    crate::text::lemma_byte_len_pos(
                        t.take(crate::text::row_start_char(ls2, row_idx as int)),
                    );
                    assert(crate::text::slot_char_idx(t, row_idx as int, 0)
                        == crate::text::row_start_char(ls2, row_idx as int));
                    assert(start0 >= 1);
                }
                let mut del = String::new();
                crate::strutil::push_char(&mut del, '\n');
                proof {
                    assert(del@ =~= seq!['\n']);
                }
                Some(
                    (
                        bid,
                        BufferEditSnapshot {
                            start_byte: start0 - 1,
                            deleted_text: del,
                            inserted_text: String::new(),
                        },
                    ),
                )
            } else {
                None
            }
        },
        _ => None,
    }
}


/// One undo step holding exactly one snapshot.
pub fn single_edit_entry(
    before_cursor: CursorState,
    after_cursor: CursorState,
    start_byte: usize,
    deleted_text: String,
    inserted_text: String,
) -> (r: BufferHistoryEntry)
    ensures
        r.before_cursor == before_cursor,
        r.after_cursor == after_cursor,
        r.edits@.len() == 1,
        r.edits@[0].start_byte == start_byte,
        r.edits@[0].deleted_text == deleted_text,
        r.edits@[0].inserted_text == inserted_text,
{
    let mut edits: Vec<BufferEditSnapshot> = Vec::new();
    edits.push(BufferEditSnapshot { start_byte, deleted_text, inserted_text });
    BufferHistoryEntry { edits, before_cursor, after_cursor }
}

/// The snapshot opening a row below the cursor's will need: a line break
/// at the end of the current row.
pub fn capture_open_line_below_pre_edit(state: &AppState) -> (r: Option<
    (BufferId, BufferEditSnapshot),
>)
    ensures
        r is Some <==> state.s_active_buffer() is Some && AppState::sat_sub1(
            state.s_active_cursor().row,
        ) < crate::text::lines_of(state.s_active_text()).len(),
        r matches Some(p) ==> Some(p.0) == state.s_active_buffer_id()
            && p.1.deleted_text@ == Seq::<char>::empty() && p.1.inserted_text@ == seq!['\n'],
{
    let bid = match state.active_buffer_id() {
        Some(b) => b,
        None => {
            return None;
        },
    };
    let bi = match crate::store::find_idx(&state.buffers, bid.0) {
        Some(i) => i,
        None => {
            return None;
        },
    };
    let cursor = state.buffers[bi].val.cursor;
    let text = &state.buffers[bi].val.text;
    let row_idx = (cursor.row.saturating_sub(1)) as usize;
    let line = match crate::text::line_text_at(text.as_str(), row_idx) {
        Some(l) => l,
        None => {
            return None;
        },
    };
    let line_start = match crate::text::line_start_byte_idx(text.as_str(), row_idx) {
        Some(s) => s,
        None => {
            return None;
        },
    };
    let line_bytes = line.as_str().as_bytes().len();
    let start_byte = line_start.saturating_add(line_bytes);
    let mut ins = String::new();
    crate::strutil::push_char(&mut ins, '\n');
    proof {
        assert(ins@ =~= seq!['\n']);
    }
    Some(
        (
            bid,
            BufferEditSnapshot { start_byte, deleted_text: String::new(), inserted_text: ins },
        ),
    )
}

/// The snapshot opening a row above the cursor's will need: a line break
/// at the start of the current row.
pub fn capture_open_line_above_pre_edit(state: &AppState) -> (r: Option<
    (BufferId, BufferEditSnapshot),
>)
    ensures
        r is Some <==> state.s_active_buffer() is Some && AppState::sat_sub1(
            state.s_active_cursor().row,
        ) < crate::text::lines_of(state.s_active_text()).len(),
        r matches Some(p) ==> Some(p.0) == state.s_active_buffer_id() && p.1.start_byte
            == spec_line_start_byte(
            state.s_active_text(),
            AppState::sat_sub1(state.s_active_cursor().row),
        ) && p.1.deleted_text@ == Seq::<char>::empty() && p.1.inserted_text@ == seq!['\n'],
{
    let bid = match state.active_buffer_id() {
        Some(b) => b,
        None => {
            return None;
        },
    };
    let bi = match crate::store::find_idx(&state.buffers, bid.0) {
        Some(i) => i,
        None => {
            return None;
        },
    };
    let cursor = state.buffers[bi].val.cursor;
    let text = &state.buffers[bi].val.text;
    let row_idx = (cursor.row.saturating_sub(1)) as usize;
    let start_byte = match crate::text::line_start_byte_idx(text.as_str(), row_idx) {
        Some(s) => s,
        None => {
            return None;
        },
    };
    let mut ins = String::new();
    crate::strutil::push_char(&mut ins, '\n');
    proof {
        assert(ins@ =~= seq!['\n']);
    }
    Some(
        (
            bid,
            BufferEditSnapshot { start_byte, deleted_text: String::new(), inserted_text: ins },
        ),
    )
}

/// The normalized selection, with its 0-based row indices, when both rows
/// lie inside the text.
pub fn capture_visual_selection_bounds(state: &AppState, text: &str) -> (r: Option<
    (CursorState, CursorState, usize, usize),
>)
    ensures
        r matches Some(b) ==> b.2 < crate::text::lines_of(text@).len() && b.3 < crate::text::lines_of(
            text@,
        ).len() && b.2 == AppState::sat_sub1(b.0.row) && b.3 == AppState::sat_sub1(b.1.row),
        state.visual_anchor is None ==> r is None,
{
    let anchor = match state.visual_anchor {
        Some(a) => a,
        None => {
            return None;
        },
    };
    let cursor = state.active_cursor();
    let ordered = anchor.row < cursor.row || (anchor.row == cursor.row && anchor.col <= cursor.col);
    let s = if ordered {
        anchor
    } else {
        cursor
    };
    let e = if ordered {
        cursor
    } else {
        anchor
    };
    let start_row = (s.row.saturating_sub(1)) as usize;
    let end_row = (e.row.saturating_sub(1)) as usize;
    let line_count = crate::text::split_lines_owned(text).len();
    if start_row >= line_count || end_row >= line_count {
        return None;
    }
    Some((s, e, start_row, end_row))
}

/// The byte range a line-wise selection over these rows spans, separator
/// included: the trailing break of the last selected row, or, when the
/// selection reaches the final row, the break just before the first one.
pub open spec fn spec_visual_line_range(text: Seq<char>, start_row: int, end_row: int) -> (int,
    int,
) {
    let ls = crate::text::lines_of(text);
    let sb = crate::text::byte_len(
        text.take(crate::text::row_start_char(ls, start_row)),
    ) as int;
    if end_row + 1 < ls.len() {
        (sb, crate::text::byte_len(text.take(crate::text::row_start_char(ls, end_row + 1))) as int)
    } else {
        let s: int = if start_row > 0 {
            if sb > 0 {
                sb - 1
            } else {
                0
            }
        } else {
            0
        };
        (s, crate::text::byte_len(text) as int)
    }
}

/// The whole-row byte range a line-wise selection spans, separators
/// included: rows before the last keep their trailing break; a selection
/// reaching the final row takes the break before it instead.
pub fn visual_line_byte_range(text: &str, start_row: usize, end_row: usize, line_count: usize) -> (r:
    Option<(usize, usize)>)
    ensures
        line_count == crate::text::lines_of(text@).len() && start_row <= end_row < line_count
            ==> (r matches Some(p) && p.0 == spec_visual_line_range(
            text@,
            start_row as int,
            end_row as int,
        ).0 && p.1 == spec_visual_line_range(text@, start_row as int, end_row as int).1),
{
    proof {
        broadcast use vstd::slice::axiom_spec_len;
        broadcast use crate::text::lemma_lines_of_nonempty;
    }
    let start_byte = if end_row < usize::MAX && end_row + 1 < line_count {
        match crate::text::line_start_byte_idx(text, start_row) {
            Some(s) => s,
            None => {
                return None;
            },
        }
    } else if start_row > 0 {
        let s = match crate::text::line_start_byte_idx(text, start_row) {
            Some(s) => s,
            None => {
                return None;
            },
        };
        s.saturating_sub(1)
    } else {
        0
    };
    let end_byte = if end_row < usize::MAX && end_row + 1 < line_count {
        match crate::text::line_start_byte_idx(text, end_row + 1) {
            Some(s) => s,
            None => {
                return None;
            },
        }
    } else {
        text.as_bytes().len()
    };
    Some((start_byte, end_byte))
}

/// Whether the recovery rule for this chord runs no command: it stays
/// pending, or clears, but neither the chord nor its retried last token
/// matches a command.
pub open spec fn backtrack_runs_no_command(keys: Seq<NormalSequenceKey>) -> bool {
    match spec_resolve(keys) {
        SequenceMatch::Pending => true,
        SequenceMatch::Action(_) => false,
        SequenceMatch::NoMatch => keys.len() <= 1 || !(spec_resolve(seq![keys.last()]) is Action),
    }
}

/// The chord after one more token, as the resolver's recovery rule leaves
/// it: kept while pending, cleared on a match, and on no match retried
/// with only the last token (which may itself clear).
pub open spec fn spec_backtrack(keys: Seq<NormalSequenceKey>) -> Seq<NormalSequenceKey> {
    match spec_resolve(keys) {
        SequenceMatch::Pending => keys,
        SequenceMatch::Action(_) => Seq::empty(),
        SequenceMatch::NoMatch => {
            if keys.len() <= 1 {
                Seq::empty()
            } else {
                let retry = seq![keys.last()];
                match spec_resolve(retry) {
                    SequenceMatch::Pending => retry,
                    SequenceMatch::Action(_) => Seq::empty(),
                    SequenceMatch::NoMatch => Seq::empty(),
                }
            }
        },
    }
}


/// A pre-edit capture: the history entry a command is about to earn.
pub enum PreEditCapture {
    Entry { buffer_id: BufferId, entry: BufferHistoryEntry },
}

/// Where a cut takes its character and what that character is: the one
/// under the cursor, at its byte position, when the cursor rests on one.
pub open spec fn cut_char_capture(state: AppState) -> Option<(int, Seq<char>)> {
    match state.s_active_buffer_id() {
        Some(bid) => match state.s_buf(bid) {
            Some(b) => {
                let rown: int = if b.cursor.row >= 1 {
                    b.cursor.row - 1
                } else {
                    0
                };
                let coln: int = if b.cursor.col >= 1 {
                    b.cursor.col - 1
                } else {
                    0
                };
                let ls = crate::text::lines_of(b.text@);
                if rown < ls.len() && coln < ls[rown].len() {
                    Some(
                        (
                            crate::text::byte_len(
                                b.text@.take(crate::text::slot_char_idx(b.text@, rown, coln)),
                            ) as int,
                            seq![ls[rown][coln]],
                        ),
                    )
                } else {
                    None
                }
            },
            None => None,
        },
        None => None,
    }
}

/// The cut entry describes the cut itself: the recorded character stands
/// in the buffer's text at the recorded byte position, and the text the
/// command leaves behind is the text with exactly that character removed.
pub proof fn lemma_cut_capture_describes(state: AppState)
    requires
        cut_char_capture(state) is Some,
    ensures
        cut_char_capture(state) matches Some(cc) ==> (state.s_active_buffer() matches Some(b)
            && ({
            let rown: int = if b.cursor.row >= 1 {
                b.cursor.row - 1
            } else {
                0
            };
            let coln: int = if b.cursor.col >= 1 {
                b.cursor.col - 1
            } else {
                0
            };
            let sci = crate::text::slot_char_idx(b.text@, rown, coln);
            &&& 0 <= sci < b.text@.len()
            &&& cc.1 == seq![b.text@[sci]]
            &&& cc.0 == crate::text::byte_len(b.text@.take(sci))
            &&& AppState::cut_char_text(b.text@, rown, coln) == b.text@.take(sci) + b.text@.skip(
                sci + 1,
            )
        })),
{
    let b = state.s_active_buffer().unwrap();
    let rown: int = if b.cursor.row >= 1 {
        b.cursor.row - 1
    } else {
        0
    };
    let coln: int = if b.cursor.col >= 1 {
        b.cursor.col - 1
    } else {
        0
    };
    crate::text::lemma_remove_char_in_row(b.text@, rown, coln);
    let ls = crate::text::lines_of(b.text@);
    assert(crate::text::slot_char_idx(b.text@, rown, coln) == crate::text::row_start_char(
        ls,
        rown,
    ) + coln);
    assert(ls.update(rown, ls[rown].take(coln) + ls[rown].skip(coln + 1)) == ls.update(
        rown,
        ls[rown].take(coln).add(ls[rown].skip(coln + 1)),
    ));
}

/// The entry a normal-mode cut (`x`) will need.
pub fn capture_cut_char_to_slot_pre_edit(state: &AppState) -> (r: Option<
    (BufferId, BufferHistoryEntry),
>)
    ensures
        r is Some <==> cut_char_capture(*state) is Some,
        r matches Some(p) ==> Some(p.0) == state.s_active_buffer_id() && p.1.edits@.len() == 1
            && p.1.before_cursor == state.s_active_cursor() && p.1.after_cursor
            == state.s_active_cursor() && p.1.edits@[0].inserted_text@ == Seq::<char>::empty()
            && (cut_char_capture(*state) matches Some(cc) && p.1.edits@[0].start_byte == cc.0
            && p.1.edits@[0].deleted_text@ == cc.1),
{
    let bid = match state.active_buffer_id() {
        Some(b) => b,
        None => {
            return None;
        },
    };
    let bi = match crate::store::find_idx(&state.buffers, bid.0) {
        Some(i) => i,
        None => {
            return None;
        },
    };
    let cursor = state.buffers[bi].val.cursor;
    let text = &state.buffers[bi].val.text;
    let row_idx = (cursor.row.saturating_sub(1)) as usize;
    let col_idx = (cursor.col.saturating_sub(1)) as usize;
    let line = match crate::text::line_text_at(text.as_str(), row_idx) {
        Some(l) => l,
        None => {
            return None;
        },
    };
    let char_count = line.as_str().unicode_len();
    if col_idx >= char_count {
        return None;
    }
    let start = match crate::text::cursor_slot_to_byte_idx(text.as_str(), cursor.row, cursor.col) {
        Some(s) => s,
        None => {
            return None;
        },
    };
    let deleted = String::from_str(line.as_str().substring_char(col_idx, col_idx + 1));
    proof {
        assert(deleted@.len() == 1);
        let ls = crate::text::lines_of(text@);
        assert(deleted@ =~= seq![ls[row_idx as int][col_idx as int]]);
    }
    let entry = single_edit_entry(cursor, cursor, start, deleted, String::new());
    Some((bid, entry))
}

/// What a whole-row delete removes and where the cursor lands: the row
/// with one separator, and the first column of the nearest surviving row.
pub open spec fn delete_line_capture(state: AppState) -> Option<(int, Seq<char>, CursorState)> {
    match state.s_active_buffer_id() {
        Some(bid) => match state.s_buf(bid) {
            Some(b) => {
                let rown: int = if b.cursor.row >= 1 {
                    b.cursor.row - 1
                } else {
                    0
                };
                let ls = crate::text::lines_of(b.text@);
                if rown < ls.len() {
                    let rng = spec_visual_line_range(b.text@, rown, rown);
                    let deleted = if rown + 1 < ls.len() {
                        ls[rown].push('\n')
                    } else if rown > 0 {
                        seq!['\n'] + ls[rown]
                    } else {
                        ls[rown]
                    };
                    let kept = if ls.len() == 1 {
                        seq![Seq::<char>::empty()]
                    } else {
                        ls.remove(rown)
                    };
                    let visible = crate::text::rendered_rows(crate::text::join_lines(kept)) as int;
                    let target: int = if rown > visible - 1 {
                        visible - 1
                    } else {
                        rown
                    };
                    let arow: int = if target + 1 > u16::MAX {
                        u16::MAX as int
                    } else {
                        target + 1
                    };
                    Some((rng.0, deleted, CursorState { row: arow as u16, col: 1u16 }))
                } else {
                    None
                }
            },
            None => None,
        },
        None => None,
    }
}

/// The entry a whole-row delete (`dd`) will need.
pub fn capture_delete_current_line_pre_edit(state: &AppState) -> (r: Option<
    (BufferId, BufferHistoryEntry),
>)
    ensures
        r is Some <==> delete_line_capture(*state) is Some,
        r matches Some(p) ==> Some(p.0) == state.s_active_buffer_id() && p.1.edits@.len() == 1
            && p.1.before_cursor == state.s_active_cursor() && p.1.edits@[0].inserted_text@
            == Seq::<char>::empty() && (delete_line_capture(*state) matches Some(dc)
            && p.1.edits@[0].start_byte == dc.0 && p.1.edits@[0].deleted_text@ == dc.1
            && p.1.after_cursor == dc.2),
{
    let bid = match state.active_buffer_id() {
        Some(b) => b,
        None => {
            return None;
        },
    };
    let bi = match crate::store::find_idx(&state.buffers, bid.0) {
        Some(i) => i,
        None => {
            return None;
        },
    };
    let cursor = state.buffers[bi].val.cursor;
    let text = &state.buffers[bi].val.text;
    let row_idx = (cursor.row.saturating_sub(1)) as usize;
    let lines = crate::text::split_lines_owned(text.as_str());
    if row_idx >= lines.len() {
        return None;
    }
    let (start, end) = match visual_line_byte_range(text.as_str(), row_idx, row_idx, lines.len()) {
        Some(p) => p,
        None => {
            return None;
        },
    };
    let ghost lsg = crate::text::lines_of(text@);
    let deleted = {
        let mut taken: Vec<String> = Vec::new();
        taken.push(lines[row_idx].clone());
        proof {
            assert(taken@.map_values(|l: String| l@) =~= seq![lsg[row_idx as int]]);
        }
        let mut d = crate::text::join_all_lines(&taken);
        proof {
            assert(d@ == lsg[row_idx as int]);
        }
        if row_idx < usize::MAX && row_idx + 1 < lines.len() {
            crate::strutil::push_char(&mut d, '\n');
            d
        } else if row_idx > 0 {
            let mut with_sep = String::new();
            crate::strutil::push_char(&mut with_sep, '\n');
            with_sep.append(d.as_str());
            proof {
                assert(with_sep@ =~= seq!['\n'] + lsg[row_idx as int]);
            }
            with_sep
        } else {
            d
        }
    };
    let visible = {
        let mut kept: Vec<String> = Vec::new();
        let n = lines.len();
        let mut i: usize = 0;
        while i < n
            invariant
                n == lines@.len(),
                0 <= i <= n,
                row_idx < n,
                lines@.map_values(|l: String| l@) == lsg,
                kept@.map_values(|l: String| l@) =~= (if i <= row_idx {
                    lsg.take(i as int)
                } else {
                    lsg.take(row_idx as int) + lsg.subrange(row_idx as int + 1, i as int)
                }),
            decreases n - i,
        {
            let ghost kv0 = kept@.map_values(|l: String| l@);
            if i != row_idx {
                kept.push(lines[i].clone());
                proof {
                    assert(kept@.map_values(|l: String| l@) =~= kv0.push(lsg[i as int]));
                }
            }
            proof {
                assert(kept@.map_values(|l: String| l@) =~= (if i + 1 <= row_idx {
                    lsg.take(i + 1)
                } else {
                    lsg.take(row_idx as int) + lsg.subrange(row_idx as int + 1, i + 1)
                }));
            }
            i = i + 1;
        }
        proof {
            assert(kept@.map_values(|l: String| l@) =~= lsg.remove(row_idx as int));
        }
        if kept.len() == 0 {
            kept.push(String::new());
            proof {
                assert(lsg.len() == 1);
                assert(kept@.map_values(|l: String| l@) =~= seq![Seq::<char>::empty()]);
            }
        }
        proof {
            assert(lsg.len() > 1 ==> kept@.map_values(|l: String| l@) == lsg.remove(
                row_idx as int,
            ));
        }
        let after_text = crate::text::join_all_lines(&kept);
        crate::text::rendered_line_count(after_text.as_str())
    };
    let target = if row_idx > visible - 1 {
        visible - 1
    } else {
        row_idx
    };
    let after_row: u16 = if target + 1 > u16::MAX as usize {
        u16::MAX
    } else {
        (target + 1) as u16
    };
    let after_cursor = CursorState { row: after_row, col: 1 };
    let entry = single_edit_entry(cursor, after_cursor, start, deleted, String::new());
    Some((bid, entry))
}

/// What a join removes and adds: the separator with the next row's
/// indent goes, and one space comes when the joined rows need one
/// between them.
pub open spec fn join_line_capture(state: AppState) -> Option<(Seq<char>, Seq<char>)> {
    match state.s_active_buffer_id() {
        Some(bid) => match state.s_buf(bid) {
            Some(b) => {
                let rown: int = if b.cursor.row >= 1 {
                    b.cursor.row - 1
                } else {
                    0
                };
                let ls = crate::text::lines_of(b.text@);
                if rown + 1 < ls.len() {
                    let cur = ls[rown];
                    let nxt = ls[rown + 1];
                    let deleted = seq!['\n'] + nxt.take(crate::strutil::leading_spaces(nxt));
                    let needs_space = cur.len() > 0 && crate::strutil::spec_trim_start(nxt).len()
                        > 0 && cur[cur.len() - 1] != ' ';
                    let inserted: Seq<char> = if needs_space {
                        seq![' ']
                    } else {
                        Seq::empty()
                    };
                    Some((deleted, inserted))
                } else {
                    None
                }
            },
            None => None,
        },
        None => None,
    }
}

/// The entry a join (`J`) will need: the separator and the next row's
/// indent go, one space may come.
pub fn capture_join_line_below_pre_edit(state: &AppState) -> (r: Option<
    (BufferId, BufferHistoryEntry),
>)
    ensures
        r is Some <==> join_line_capture(*state) is Some,
        r matches Some(p) ==> Some(p.0) == state.s_active_buffer_id() && p.1.edits@.len() == 1
            && p.1.before_cursor == state.s_active_cursor() && (join_line_capture(*state) matches
            Some(jc) && p.1.edits@[0].deleted_text@ == jc.0 && p.1.edits@[0].inserted_text@ == jc.1
            && p.1.after_cursor.row == state.s_active_cursor().row),
{
    let bid = match state.active_buffer_id() {
        Some(b) => b,
        None => {
            return None;
        },
    };
    let bi = match crate::store::find_idx(&state.buffers, bid.0) {
        Some(i) => i,
        None => {
            return None;
        },
    };
    let cursor = state.buffers[bi].val.cursor;
    let text = &state.buffers[bi].val.text;
    let row_idx = (cursor.row.saturating_sub(1)) as usize;
    if row_idx >= usize::MAX - 1 {
        return None;
    }
    let current_line = match crate::text::line_text_at(text.as_str(), row_idx) {
        Some(l) => l,
        None => {
            return None;
        },
    };
    let next_line = match crate::text::line_text_at(text.as_str(), row_idx + 1) {
        Some(l) => l,
        None => {
            return None;
        },
    };
    let current_start = match crate::text::line_start_byte_idx(text.as_str(), row_idx) {
        Some(s) => s,
        None => {
            return None;
        },
    };
    let boundary = current_start.saturating_add(current_line.as_str().as_bytes().len());
    let (next_trimmed, skipped) = crate::strutil::trim_start_counted(next_line.as_str());
    let nn = next_line.as_str().unicode_len();
    proof {
        crate::strutil::lemma_leading_spaces_bound(next_line@);
    }
    let prefix = String::from_str(next_line.as_str().substring_char(0, skipped));
    let mut deleted = String::new();
    crate::strutil::push_char(&mut deleted, '\n');
    deleted.append(prefix.as_str());
    proof {
        assert(prefix@ =~= next_line@.take(crate::strutil::leading_spaces(next_line@)));
        assert(deleted@ =~= seq!['\n'] + next_line@.take(
            crate::strutil::leading_spaces(next_line@),
        ));
    }
    let cn = current_line.as_str().unicode_len();
    let tn = next_trimmed.as_str().unicode_len();
    let needs_space = cn > 0 && tn > 0 && current_line.as_str().get_char(cn - 1) != ' ';
    let inserted = if needs_space {
        let mut s = String::new();
        crate::strutil::push_char(&mut s, ' ');
        s
    } else {
        String::new()
    };
    let merged_count = if needs_space {
        cn.saturating_add(1).saturating_add(tn)
    } else {
        cn.saturating_add(tn)
    };
    let max_col: u16 = if merged_count >= u16::MAX as usize {
        u16::MAX
    } else {
        (merged_count + 1) as u16
    };
    let after_col = {
        let c = if cursor.col > max_col {
            max_col
        } else {
            cursor.col
        };
        if c < 1 {
            1
        } else {
            c
        }
    };
    let after_cursor = CursorState { row: cursor.row, col: after_col };
    let entry = single_edit_entry(cursor, after_cursor, boundary, deleted, inserted);
    Some((bid, entry))
}

/// What a paste inserts and where the cursor lands: the slot with one
/// separator after the cursor's row when it is line-wise, the slot itself
/// after the cursor's column when it is not.
pub open spec fn paste_after_capture(state: AppState) -> Option<(Seq<char>, CursorState)> {
    match state.line_slot {
        Some(slot) => match state.s_active_buffer_id() {
            Some(bid) => match state.s_buf(bid) {
                Some(b) => {
                    let rown: int = if b.cursor.row >= 1 {
                        b.cursor.row - 1
                    } else {
                        0
                    };
                    let ls = crate::text::lines_of(b.text@);
                    if state.line_slot_line_wise {
                        let at: int = if rown + 1 > ls.len() {
                            ls.len() as int
                        } else {
                            rown + 1
                        };
                        let cnt = crate::text::lines_of(slot@).len() as int;
                        let inserted = if at < ls.len() {
                            slot@ + seq!['\n']
                        } else {
                            seq!['\n'] + slot@
                        };
                        let arow: int = if at + cnt > u16::MAX {
                            u16::MAX as int
                        } else {
                            at + cnt
                        };
                        Some((inserted, CursorState { row: arow as u16, col: 1u16 }))
                    } else {
                        if rown < ls.len() {
                            let add: int = if slot@.len() > u16::MAX {
                                u16::MAX as int
                            } else {
                                slot@.len() as int
                            };
                            let ncol: int = if b.cursor.col + add > u16::MAX {
                                u16::MAX as int
                            } else {
                                b.cursor.col + add
                            };
                            Some(
                                (slot@, CursorState { row: b.cursor.row, col: ncol as u16 }),
                            )
                        } else {
                            None
                        }
                    }
                },
                None => None,
            },
            None => None,
        },
        None => None,
    }
}

/// The entry a normal-mode paste (`p`) will need.
pub fn capture_paste_after_cursor_pre_edit(state: &AppState) -> (r: Option<
    (BufferId, BufferHistoryEntry),
>)
    ensures
        r is Some <==> paste_after_capture(*state) is Some,
        r matches Some(p) ==> Some(p.0) == state.s_active_buffer_id() && p.1.edits@.len() == 1
            && p.1.before_cursor == state.s_active_cursor() && p.1.edits@[0].deleted_text@
            == Seq::<char>::empty() && (paste_after_capture(*state) matches Some(pc)
            && p.1.edits@[0].inserted_text@ == pc.0 && p.1.after_cursor == pc.1),
        state.line_slot is None ==> r is None,
{
    let slot_text = match &state.line_slot {
        Some(s) => s.clone(),
        None => {
            return None;
        },
    };
    let bid = match state.active_buffer_id() {
        Some(b) => b,
        None => {
            return None;
        },
    };
    let bi = match crate::store::find_idx(&state.buffers, bid.0) {
        Some(i) => i,
        None => {
            return None;
        },
    };
    let cursor = state.buffers[bi].val.cursor;
    let text = &state.buffers[bi].val.text;
    let row_idx = (cursor.row.saturating_sub(1)) as usize;
    let lines = crate::text::split_lines_owned(text.as_str());
    if state.line_slot_line_wise {
        let insert_at = {
            let a = row_idx.saturating_add(1);
            if a > lines.len() {
                lines.len()
            } else {
                a
            }
        };
        let slot_lines = crate::text::split_lines_owned(slot_text.as_str());
        let inserted_count = slot_lines.len();
        let inserted_joined = crate::text::join_all_lines(&slot_lines);
        proof {
            crate::text::lemma_join_lines_of(slot_text@);
            assert(inserted_joined@ == slot_text@);
        }
        let (start_byte, inserted_text) = if insert_at < lines.len() {
            let s = match crate::text::line_start_byte_idx(text.as_str(), insert_at) {
                Some(s) => s,
                None => {
                    return None;
                },
            };
            let mut it = String::new();
            it.append(inserted_joined.as_str());
            crate::strutil::push_char(&mut it, '\n');
            proof {
                assert(it@ =~= slot_text@ + seq!['\n']);
            }
            (s, it)
        } else {
            let mut it = String::new();
            crate::strutil::push_char(&mut it, '\n');
            it.append(inserted_joined.as_str());
            proof {
                assert(it@ =~= seq!['\n'] + slot_text@);
            }
            (text.as_str().as_bytes().len(), it)
        };
        let target = insert_at.saturating_add(inserted_count);
        let after_row: u16 = if target > u16::MAX as usize {
            u16::MAX
        } else {
            target as u16
        };
        let after_cursor = CursorState { row: after_row, col: 1 };
        let entry = single_edit_entry(cursor, after_cursor, start_byte, String::new(), inserted_text);
        return Some((bid, entry));
    }
    let line = match crate::text::line_text_at(text.as_str(), row_idx) {
        Some(l) => l,
        None => {
            return None;
        },
    };
    let char_count = line.as_str().unicode_len();
    let col_idx = (cursor.col.saturating_sub(1)) as usize;
    let insert_char_idx = {
        let a = col_idx.saturating_add(1);
        if a > char_count {
            char_count
        } else {
            a
        }
    };
    let start_byte = {
        let line_start = match crate::text::line_start_byte_idx(text.as_str(), row_idx) {
            Some(s) => s,
            None => {
                return None;
            },
        };
        let in_line = crate::text::char_to_byte_idx(line.as_str(), insert_char_idx);
        line_start.saturating_add(in_line)
    };
    let slot_count = slot_text.as_str().unicode_len();
    let add: u16 = if slot_count > u16::MAX as usize {
        u16::MAX
    } else {
        slot_count as u16
    };
    let after_cursor = CursorState { row: cursor.row, col: cursor.col.saturating_add(add) };
    let entry = single_edit_entry(cursor, after_cursor, start_byte, String::new(), slot_text);
    Some((bid, entry))
}

/// The entry a visual-mode delete will need, selection-shape aware.
pub fn capture_visual_delete_pre_edit(state: &AppState) -> (r: Option<
    (BufferId, BufferHistoryEntry),
>)
    ensures
        r matches Some(p) ==> Some(p.0) == state.s_active_buffer_id() && p.1.edits@.len() == 1
            && p.1.before_cursor == state.s_active_cursor() && p.1.edits@[0].inserted_text@
            == Seq::<char>::empty(),
        state.visual_anchor is None ==> r is None,
{
    let bid = match state.active_buffer_id() {
        Some(b) => b,
        None => {
            return None;
        },
    };
    let bi = match crate::store::find_idx(&state.buffers, bid.0) {
        Some(i) => i,
        None => {
            return None;
        },
    };
    let before_cursor = state.buffers[bi].val.cursor;
    let text = state.buffers[bi].val.text.clone();
    let (s, e, start_row, end_row) = match capture_visual_selection_bounds(state, text.as_str()) {
        Some(b) => b,
        None => {
            return None;
        },
    };
    let lines = crate::text::split_lines_owned(text.as_str());
    if state.is_visual_line_mode() {
        if end_row < start_row {
            return None;
        }
        let (start_byte, _end_byte) = match visual_line_byte_range(
            text.as_str(),
            start_row,
            end_row,
            lines.len(),
        ) {
            Some(p) => p,
            None => {
                return None;
            },
        };
        let mut taken: Vec<String> = Vec::new();
        let mut j = start_row;
        while j <= end_row
            invariant
                start_row <= j <= end_row + 1,
                end_row < lines@.len(),
                end_row <= u16::MAX,
            decreases end_row + 1 - j,
        {
            taken.push(lines[j].clone());
            j = j + 1;
        }
        let joined = crate::text::join_all_lines(&taken);
        let deleted = if end_row < usize::MAX && end_row + 1 < lines.len() {
            let mut d = String::new();
            d.append(joined.as_str());
            crate::strutil::push_char(&mut d, '\n');
            d
        } else if start_row > 0 {
            let mut d = String::new();
            crate::strutil::push_char(&mut d, '\n');
            d.append(joined.as_str());
            d
        } else {
            joined
        };
        let visible = {
            let mut kept: Vec<String> = Vec::new();
            let n = lines.len();
            let mut i: usize = 0;
            while i < n
                invariant
                    n == lines@.len(),
                    0 <= i <= n,
                decreases n - i,
            {
                if i < start_row || i > end_row {
                    kept.push(lines[i].clone());
                }
                i = i + 1;
            }
            if kept.len() == 0 {
                kept.push(String::new());
            }
            let after_text = crate::text::join_all_lines(&kept);
            crate::text::rendered_line_count(after_text.as_str())
        };
        let target = if start_row > visible - 1 {
            visible - 1
        } else {
            start_row
        };
        let after_row: u16 = if target + 1 > u16::MAX as usize {
            u16::MAX
        } else {
            (target + 1) as u16
        };
        let after_cursor = CursorState { row: after_row, col: 1 };
        let entry = single_edit_entry(
            before_cursor,
            after_cursor,
            start_byte,
            deleted,
            String::new(),
        );
        return Some((bid, entry));
    }
    let start_line_n = lines[start_row].as_str().unicode_len();
    let end_line_n = lines[end_row].as_str().unicode_len();
    let start_col: usize = {
        let base = if s.col < 1 {
            1
        } else {
            s.col
        } as usize;
        let lim = if start_line_n < 1 {
            1
        } else {
            start_line_n
        };
        if base > lim {
            lim
        } else {
            base
        }
    };
    let end_col: usize = {
        let base = if e.col < 1 {
            1
        } else {
            e.col
        } as usize;
        let lim = if end_line_n < 1 {
            1
        } else {
            end_line_n
        };
        if base > lim {
            lim
        } else {
            base
        }
    };
    let start_line_start = match crate::text::line_start_byte_idx(text.as_str(), start_row) {
        Some(v) => v,
        None => {
            return None;
        },
    };
    let end_line_start = match crate::text::line_start_byte_idx(text.as_str(), end_row) {
        Some(v) => v,
        None => {
            return None;
        },
    };
    if start_row == end_row {
        if end_col < start_col {
            return None;
        }
        let (_kept, cut) = AppState::line_remove_range(
            lines[start_row].as_str(),
            start_col - 1,
            end_col,
        );
        let start_in_line = crate::text::char_to_byte_idx(lines[start_row].as_str(), start_col - 1);
        let start_byte = start_line_start.saturating_add(start_in_line);
        let removed = end_col.saturating_sub(start_col).saturating_add(1);
        let new_len = start_line_n.saturating_sub(removed);
        let col_lim: u16 = if new_len >= u16::MAX as usize {
            u16::MAX
        } else {
            (new_len + 1) as u16
        };
        let after_col: u16 = {
            let sc: u16 = if start_col > u16::MAX as usize {
                u16::MAX
            } else {
                start_col as u16
            };
            if sc > col_lim {
                col_lim
            } else {
                sc
            }
        };
        let after_cursor = CursorState { row: s.row, col: after_col };
        let entry = single_edit_entry(before_cursor, after_cursor, start_byte, cut, String::new());
        return Some((bid, entry));
    }
    if end_row < start_row {
        return None;
    }
    let end_del = {
        let ec = end_col;
        if ec > end_line_n {
            end_line_n
        } else {
            ec
        }
    };
    let start_keep = crate::text::char_to_byte_idx(lines[start_row].as_str(), start_col - 1);
    let start_byte = start_line_start.saturating_add(start_keep);
    let mut parts: Vec<String> = Vec::new();
    parts.push(
        String::from_str(lines[start_row].as_str().substring_char(start_col - 1, start_line_n)),
    );
    let mut j = start_row + 1;
    while j < end_row
        invariant
            start_row + 1 <= j,
            j <= end_row || j == start_row + 1,
            end_row < lines@.len(),
        decreases end_row - j,
    {
        parts.push(lines[j].clone());
        j = j + 1;
    }
    parts.push(String::from_str(lines[end_row].as_str().substring_char(0, end_del)));
    let deleted = crate::text::join_all_lines(&parts);
    let merged_count = {
        let head = start_col - 1;
        let tail = end_line_n.saturating_sub(end_del);
        head.saturating_add(tail)
    };
    let col_lim: u16 = if merged_count >= u16::MAX as usize {
        u16::MAX
    } else {
        (merged_count + 1) as u16
    };
    let after_col: u16 = {
        let sc: u16 = if start_col > u16::MAX as usize {
            u16::MAX
        } else {
            start_col as u16
        };
        if sc > col_lim {
            col_lim
        } else {
            sc
        }
    };
    let after_cursor = CursorState { row: s.row, col: after_col };
    let entry = single_edit_entry(before_cursor, after_cursor, start_byte, deleted, String::new());
    Some((bid, entry))
}

/// The entry a visual-mode paste will need: the selection's bytes swapped
/// for the slot's text.
pub fn capture_visual_paste_pre_edit(state: &AppState) -> (r: Option<
    (BufferId, BufferHistoryEntry),
>)
    ensures
        r matches Some(p) ==> Some(p.0) == state.s_active_buffer_id() && p.1.edits@.len() == 1
            && p.1.before_cursor == state.s_active_cursor(),
        state.line_slot is None ==> r is None,
        state.visual_anchor is None ==> r is None,
{
    let slot_text = match &state.line_slot {
        Some(s) => s.clone(),
        None => {
            return None;
        },
    };
    let bid = match state.active_buffer_id() {
        Some(b) => b,
        None => {
            return None;
        },
    };
    let bi = match crate::store::find_idx(&state.buffers, bid.0) {
        Some(i) => i,
        None => {
            return None;
        },
    };
    let before_cursor = state.buffers[bi].val.cursor;
    let text = state.buffers[bi].val.text.clone();
    let (s, e, start_row, end_row) = match capture_visual_selection_bounds(state, text.as_str()) {
        Some(b) => b,
        None => {
            return None;
        },
    };
    if end_row < start_row {
        return None;
    }
    let lines = crate::text::split_lines_owned(text.as_str());
    if state.is_visual_line_mode() {
        let (start_byte, _eb) = match visual_line_byte_range(
            text.as_str(),
            start_row,
            end_row,
            lines.len(),
        ) {
            Some(p) => p,
            None => {
                return None;
            },
        };
        let mut taken: Vec<String> = Vec::new();
        let mut j = start_row;
        while j <= end_row
            invariant
                start_row <= j <= end_row + 1,
                end_row < lines@.len(),
                end_row <= u16::MAX,
            decreases end_row + 1 - j,
        {
            taken.push(lines[j].clone());
            j = j + 1;
        }
        let joined = crate::text::join_all_lines(&taken);
        let deleted = if end_row < usize::MAX && end_row + 1 < lines.len() {
            let mut d = String::new();
            d.append(joined.as_str());
            crate::strutil::push_char(&mut d, '\n');
            d
        } else if start_row > 0 {
            let mut d = String::new();
            crate::strutil::push_char(&mut d, '\n');
            d.append(joined.as_str());
            d
        } else {
            joined
        };
        let replacement_lines = crate::text::split_lines_owned(slot_text.as_str());
        let inserted_text = crate::text::join_all_lines(&replacement_lines);
        let after_row: u16 = if start_row >= u16::MAX as usize {
            u16::MAX
        } else {
            (start_row + 1) as u16
        };
        let after_cursor = CursorState { row: after_row, col: 1 };
        let entry = single_edit_entry(before_cursor, after_cursor, start_byte, deleted, inserted_text);
        return Some((bid, entry));
    }
    let start_line_n = lines[start_row].as_str().unicode_len();
    let end_line_n = lines[end_row].as_str().unicode_len();
    let start_col: usize = {
        let base = if s.col < 1 {
            1
        } else {
            s.col
        } as usize;
        let lim = if start_line_n < 1 {
            1
        } else {
            start_line_n
        };
        if base > lim {
            lim
        } else {
            base
        }
    };
    let end_col: usize = {
        let base = if e.col < 1 {
            1
        } else {
            e.col
        } as usize;
        let lim = if end_line_n < 1 {
            1
        } else {
            end_line_n
        };
        if base > lim {
            lim
        } else {
            base
        }
    };
    if start_row == end_row && end_col < start_col {
        return None;
    }
    let start_line_start = match crate::text::line_start_byte_idx(text.as_str(), start_row) {
        Some(v) => v,
        None => {
            return None;
        },
    };
    let end_line_start = match crate::text::line_start_byte_idx(text.as_str(), end_row) {
        Some(v) => v,
        None => {
            return None;
        },
    };
    let end_del = if end_col > end_line_n {
        end_line_n
    } else {
        end_col
    };
    let start_keep = crate::text::char_to_byte_idx(lines[start_row].as_str(), start_col - 1);
    let start_byte = start_line_start.saturating_add(start_keep);
    let mut parts: Vec<String> = Vec::new();
    parts.push(
        String::from_str(lines[start_row].as_str().substring_char(start_col - 1, start_line_n)),
    );
    let mut j = start_row + 1;
    while j < end_row
        invariant
            start_row + 1 <= j,
            j <= end_row || j == start_row + 1,
            end_row < lines@.len(),
        decreases end_row - j,
    {
        parts.push(lines[j].clone());
        j = j + 1;
    }
    if end_row > start_row {
        parts.push(String::from_str(lines[end_row].as_str().substring_char(0, end_del)));
        let deleted = crate::text::join_all_lines(&parts);
        let after_col: u16 = if start_col > u16::MAX as usize {
            u16::MAX
        } else {
            start_col as u16
        };
        let after_row: u16 = if start_row >= u16::MAX as usize {
            u16::MAX
        } else {
            (start_row + 1) as u16
        };
        let after_cursor = CursorState { row: after_row, col: after_col };
        let entry = single_edit_entry(before_cursor, after_cursor, start_byte, deleted, slot_text);
        return Some((bid, entry));
    }
    let (_kept, cut) = AppState::line_remove_range(
        lines[start_row].as_str(),
        start_col - 1,
        end_del,
    );
    let after_col: u16 = if start_col > u16::MAX as usize {
        u16::MAX
    } else {
        start_col as u16
    };
    let after_row: u16 = if start_row >= u16::MAX as usize {
        u16::MAX
    } else {
        (start_row + 1) as u16
    };
    let after_cursor = CursorState { row: after_row, col: after_col };
    let entry = single_edit_entry(before_cursor, after_cursor, start_byte, cut, slot_text);
    Some((bid, entry))
}

/// Whether a resolved command mutates text immediately and so needs a
/// pre-edit snapshot of its own.
pub fn is_immediate_text_mutating_editor_action(action: EditorAction) -> (r: bool)
    ensures
        r == (action == EditorAction::JoinLineBelow || action == EditorAction::CutCharToSlot
            || action == EditorAction::PasteSlotAfterCursor || action
            == EditorAction::DeleteCurrentLineToSlot),
{
    action == EditorAction::JoinLineBelow || action == EditorAction::CutCharToSlot || action
        == EditorAction::PasteSlotAfterCursor || action == EditorAction::DeleteCurrentLineToSlot
}

/// The snapshot a normal-mode keystroke will need, found by resolving the
/// chord it completes.
pub fn capture_normal_mode_pre_edit_snapshot(state: &AppState, key: KeyEvent) -> (r: Option<
    PreEditCapture,
>)
    ensures
        spec_to_normal_key(state.leader_key, key) is None ==> r is None,
        r matches Some(c) ==> (spec_to_normal_key(state.leader_key, key) matches Some(k)
            && spec_resolve(state.normal_sequence@.push(k)) matches SequenceMatch::Action(act)
            && act matches AppAction::Editor(a) && c matches PreEditCapture::Entry {
            buffer_id,
            entry,
        } && Some(buffer_id) == state.s_active_buffer_id() && entry.before_cursor
            == state.s_active_cursor() && entry.edits@.len() == 1 && (a
            == EditorAction::CutCharToSlot ==> (cut_char_capture(*state) matches Some(cc)
            && entry.edits@[0].start_byte == cc.0 && entry.edits@[0].deleted_text@ == cc.1
            && entry.edits@[0].inserted_text@ == Seq::<char>::empty() && entry.after_cursor
            == state.s_active_cursor())) && (a == EditorAction::DeleteCurrentLineToSlot ==> (
        delete_line_capture(*state) matches Some(dc) && entry.edits@[0].start_byte == dc.0
            && entry.edits@[0].deleted_text@ == dc.1 && entry.edits@[0].inserted_text@
            == Seq::<char>::empty() && entry.after_cursor == dc.2)) && (a
            == EditorAction::PasteSlotAfterCursor ==> entry.edits@[0].deleted_text@
            == Seq::<char>::empty())),
{
    let normal_key = match to_normal_key(state, key) {
        Some(k) => k,
        None => {
            return None;
        },
    };
    let mut keys: Vec<NormalSequenceKey> = Vec::new();
    let n = state.normal_sequence.len();
    let mut i: usize = 0;
    while i < n
        invariant
            n == state.normal_sequence@.len(),
            0 <= i <= n,
            keys@ =~= state.normal_sequence@.take(i as int),
        decreases n - i,
    {
        keys.push(state.normal_sequence[i]);
        proof {
            assert(keys@ =~= state.normal_sequence@.take(i + 1));
        }
        i = i + 1;
    }
    proof {
        assert(state.normal_sequence@.take(n as int) =~= state.normal_sequence@);
    }
    keys.push(normal_key);
    let editor_action = match resolve_normal_sequence(&keys) {
        SequenceMatch::Action(AppAction::Editor(a)) => a,
        _ => {
            return None;
        },
    };
    if !is_immediate_text_mutating_editor_action(editor_action) {
        return None;
    }
    match editor_action {
        EditorAction::CutCharToSlot => match capture_cut_char_to_slot_pre_edit(state) {
            Some((buffer_id, entry)) => Some(PreEditCapture::Entry { buffer_id, entry }),
            None => None,
        },
        EditorAction::DeleteCurrentLineToSlot => match capture_delete_current_line_pre_edit(
            state,
        ) {
            Some((buffer_id, entry)) => Some(PreEditCapture::Entry { buffer_id, entry }),
            None => None,
        },
        EditorAction::JoinLineBelow => match capture_join_line_below_pre_edit(state) {
            Some((buffer_id, entry)) => Some(PreEditCapture::Entry { buffer_id, entry }),
            None => None,
        },
        EditorAction::PasteSlotAfterCursor => match capture_paste_after_cursor_pre_edit(state) {
            Some((buffer_id, entry)) => Some(PreEditCapture::Entry { buffer_id, entry }),
            None => None,
        },
        _ => None,
    }
}

/// The snapshot a keystroke will need, routed by the mode that receives
/// it: normal-mode commands and visual `d`/`p` capture here; insert
/// keystrokes capture separately, command mode never does.
pub fn capture_pre_edit_snapshot(state: &AppState, mode: EditorMode, key: KeyEvent) -> (r: Option<
    PreEditCapture,
>)
    ensures
        mode == EditorMode::Insert || mode == EditorMode::Command ==> r is None,
{
    match mode {
        EditorMode::Normal => capture_normal_mode_pre_edit_snapshot(state, key),
        EditorMode::VisualChar | EditorMode::VisualLine => {
            if !key.ctrl && !key.alt && key.code == KeyCode::Char('d') {
                match capture_visual_delete_pre_edit(state) {
                    Some((buffer_id, entry)) => Some(PreEditCapture::Entry { buffer_id, entry }),
                    None => None,
                }
            } else if !key.ctrl && !key.alt && key.code == KeyCode::Char('p') {
                match capture_visual_paste_pre_edit(state) {
                    Some((buffer_id, entry)) => Some(PreEditCapture::Entry { buffer_id, entry }),
                    None => None,
                }
            } else {
                None
            }
        },
        EditorMode::Insert | EditorMode::Command => None,
    }
}



/// The insert group after a command that opens insert mode: an already
/// open group survives; otherwise a fresh empty group keyed to the active
/// buffer opens, anchored at the cursor the command found.
pub open spec fn group_opened(pre: AppState, post: AppState) -> bool {
    match pre.pending_insert_group {
        Some(_) => post.pending_insert_group == pre.pending_insert_group,
        None => match pre.s_active_buffer_id() {
            Some(bid) => post.pending_insert_group matches Some(g) && g.buffer_id == bid
                && g.before_cursor == pre.s_active_cursor() && g.edits@.len() == 0,
            None => post.pending_insert_group is None,
        },
    }
}

/// Entering insert mode without moving: mode, status text and the insert
/// group change, nothing else.
pub open spec fn insert_mode_entry(pre: AppState, post: AppState) -> bool {
    &&& post == (AppState {
        mode: EditorMode::Insert,
        visual_anchor: None,
        status_bar: post.status_bar,
        pending_insert_group: post.pending_insert_group,
        ..pre
    })
    &&& post.status_bar == (StatusBarState { mode: post.status_bar.mode, ..pre.status_bar })
    &&& post.status_bar.mode@ == "INSERT"@
    &&& group_opened(pre, post)
}

/// Entering insert mode for appending: as `insert_mode_entry`, with the
/// cursor first stepped one column right (insert-mode limit).
pub open spec fn append_insert_post(pre: AppState, post: AppState) -> bool {
    &&& post == (AppState {
        mode: EditorMode::Insert,
        visual_anchor: None,
        status_bar: post.status_bar,
        pending_insert_group: post.pending_insert_group,
        buffers: post.buffers,
        windows: post.windows,
        preferred_col: None,
        ..pre
    })
    &&& post.status_bar == (StatusBarState { mode: post.status_bar.mode, ..pre.status_bar })
    &&& post.status_bar.mode@ == "INSERT"@
    &&& group_opened(pre, post)
    &&& AppState::windows_scroll_frame(pre, post)
    &&& pre.s_active_buffer_id() matches Some(bid) ==> (pre.s_buf(bid) is Some ==> post.s_buf(bid)
        == Some(
        BufferState {
            cursor: CursorState {
                row: pre.s_active_cursor().row,
                col: if pre.s_active_cursor().col < pre.s_max_col_for_row(
                    pre.s_active_cursor().row,
                ) {
                    (pre.s_active_cursor().col + 1) as u16
                } else {
                    pre.s_active_cursor().col
                },
            },
            ..pre.s_buf(bid).unwrap()
        },
    ) && (forall|b2: BufferId| b2 != bid ==> post.s_buf(b2) == pre.s_buf(b2)))
    &&& pre.s_active_buffer() is None ==> post.buffers == pre.buffers
}

/// Entering insert mode on a freshly opened row: the row opens, the cursor
/// lands on it, and a fresh insert group already records the line break.
pub open spec fn open_insert_post(
    pre: AppState,
    post: AppState,
    below: bool,
) -> bool {
    let row_idx = AppState::sat_sub1(pre.s_active_cursor().row);
    let newtext = if below {
        AppState::open_line_below_text(pre.s_active_text(), row_idx)
    } else {
        AppState::open_line_above_text(pre.s_active_text(), row_idx)
    };
    let newcur = if below {
        CursorState { row: pre.s_active_cursor().row.saturating_add(1u16), col: 1u16 }
    } else {
        CursorState { row: pre.s_active_cursor().row, col: 1u16 }
    };
    &&& post == (AppState {
        mode: EditorMode::Insert,
        visual_anchor: None,
        status_bar: post.status_bar,
        pending_insert_group: post.pending_insert_group,
        buffers: post.buffers,
        windows: post.windows,
        ..pre
    })
    &&& post.status_bar == (StatusBarState { mode: post.status_bar.mode, ..pre.status_bar })
    &&& post.status_bar.mode@ == "INSERT"@
    &&& AppState::windows_scroll_frame(pre, post)
    &&& pre.s_active_buffer_id() matches Some(bid) ==> (pre.s_buf(bid) is Some ==> (post.s_buf(
        bid,
    ) matches Some(nb) && nb == (BufferState {
        text: nb.text,
        cursor: newcur,
        dirty: true,
        ..pre.s_buf(bid).unwrap()
    }) && nb.text@ == newtext && (forall|b2: BufferId|
        b2 != bid ==> post.s_buf(b2) == pre.s_buf(b2))))
    &&& pre.s_active_buffer() is None ==> post.buffers == pre.buffers
    &&& pre.pending_insert_group is None ==> (pre.s_active_buffer() is Some && row_idx < crate::text::lines_of(
        pre.s_active_text(),
    ).len() ==> (post.pending_insert_group matches Some(g) && g.buffer_id
        == pre.s_active_buffer_id().unwrap() && g.before_cursor == pre.s_active_cursor()
        && g.edits@.len() == 1 && g.edits@[0].deleted_text@ == Seq::<char>::empty()
        && g.edits@[0].inserted_text@ == seq!['\n']))
}

/// What one resolved editor command does to the state and the outgoing
/// request queue, command by command.
pub open spec fn editor_effect(
    pre: AppState,
    post: AppState,
    a: EditorAction,
    out0: Seq<IoRequest>,
    out1: Seq<IoRequest>,
) -> bool {
    match a {
        EditorAction::KeyPressed(_) => post == pre && out1 == out0,
        EditorAction::EnterInsert => out1 == out0 && insert_mode_entry(pre, post),
        EditorAction::AppendInsert => out1 == out0 && append_insert_post(pre, post),
        EditorAction::OpenLineBelowInsert => out1 == out0 && open_insert_post(pre, post, true),
        EditorAction::OpenLineAboveInsert => out1 == out0 && open_insert_post(pre, post, false),
        EditorAction::EnterCommandMode => out1 == out0 && post == (AppState {
            mode: EditorMode::Command,
            visual_anchor: None,
            command_line: post.command_line,
            status_bar: post.status_bar,
            ..pre
        }) && post.command_line@.len() == 0 && post.status_bar == (StatusBarState {
            mode: post.status_bar.mode,
            ..pre.status_bar
        }) && post.status_bar.mode@ == "COMMAND"@,
        EditorAction::EnterVisualMode => out1 == out0 && post == (AppState {
            mode: EditorMode::VisualChar,
            visual_anchor: Some(pre.s_active_cursor()),
            status_bar: post.status_bar,
            ..pre
        }) && post.status_bar == (StatusBarState {
            mode: post.status_bar.mode,
            ..pre.status_bar
        }) && post.status_bar.mode@ == "VISUAL"@,
        EditorAction::EnterVisualLineMode => out1 == out0 && post == (AppState {
            mode: EditorMode::VisualLine,
            visual_anchor: Some(
                CursorState {
                    row: match pre.visual_anchor {
                        Some(anchor) => anchor.row,
                        None => pre.s_active_cursor().row,
                    },
                    col: 1u16,
                },
            ),
            status_bar: post.status_bar,
            ..pre
        }) && post.status_bar == (StatusBarState {
            mode: post.status_bar.mode,
            ..pre.status_bar
        }) && post.status_bar.mode@ == "VISUAL LINE"@,
        EditorAction::MoveLeft => out1 == out0 && post.preferred_col is None
            && AppState::cursor_only_post(
            pre,
            post,
            CursorState {
                row: pre.s_active_cursor().row,
                col: if pre.s_active_cursor().col > 1 {
                    (pre.s_active_cursor().col - 1) as u16
                } else {
                    pre.s_active_cursor().col
                },
            },
        ),
        EditorAction::MoveLineStart => out1 == out0 && post.preferred_col is None
            && AppState::cursor_only_post(
            pre,
            post,
            CursorState { row: pre.s_active_cursor().row, col: 1u16 },
        ),
        EditorAction::MoveLineEnd => out1 == out0 && post.preferred_col is None
            && AppState::cursor_only_post(
            pre,
            post,
            CursorState {
                row: pre.s_active_cursor().row,
                col: AppState::clamp_col(
                    pre.s_max_navigable_col_for_row(pre.s_active_cursor().row),
                    pre.s_max_navigable_col_for_row(pre.s_active_cursor().row),
                ),
            },
        ),
        EditorAction::MoveDown => out1 == out0 && post.preferred_col == Some(pre.s_target_col()),
        EditorAction::MoveUp => out1 == out0 && post.preferred_col == Some(pre.s_target_col()),
        EditorAction::MoveRight => out1 == out0 && post.preferred_col is None
            && AppState::cursor_only_post(
            pre,
            post,
            CursorState {
                row: pre.s_active_cursor().row,
                col: if pre.s_active_cursor().col < pre.s_max_navigable_col_for_row(
                    pre.s_active_cursor().row,
                ) {
                    (pre.s_active_cursor().col + 1) as u16
                } else {
                    pre.s_active_cursor().col
                },
            },
        ),
        EditorAction::MoveFileStart => out1 == out0 && post.preferred_col == Some(
            pre.s_target_col(),
        ),
        EditorAction::MoveFileEnd => out1 == out0 && post.preferred_col == Some(
            pre.s_target_col(),
        ),
        EditorAction::ScrollViewDown => out1 == out0 && AppState::scroll_view_post(pre, post),
        EditorAction::ScrollViewUp => out1 == out0 && AppState::scroll_view_post(pre, post),
        EditorAction::ScrollViewHalfPageDown => out1 == out0 && AppState::scroll_view_post(
            pre,
            post,
        ),
        EditorAction::ScrollViewHalfPageUp => out1 == out0 && AppState::scroll_view_post(
            pre,
            post,
        ),
        EditorAction::Undo => out1 == out0 && AppState::undo_post(pre, post),
        EditorAction::Redo => out1 == out0 && AppState::redo_post(pre, post),
        EditorAction::JoinLineBelow => out1 == out0 && AppState::join_post(pre, post),
        EditorAction::CutCharToSlot => out1 == out0 && AppState::cut_char_post(pre, post),
        EditorAction::PasteSlotAfterCursor => out1 == out0 && AppState::paste_post(pre, post),
        EditorAction::DeleteCurrentLineToSlot => out1 == out0 && AppState::delete_line_post(
            pre,
            post,
        ),
        EditorAction::CloseActiveBuffer => {
            &&& (pre.s_active_buffer_id() matches Some(b) ==> out1 == out0.push(
                IoRequest::Unwatch { buffer_id: b },
            ) && post.status_bar.message@ == "buffer closed"@)
            &&& (pre.s_active_buffer_id() is None ==> out1 == out0 && AppState::only_message(
                pre,
                post,
            ) && post.status_bar.message@ == "buffer close failed: no active buffer"@)
        },
        EditorAction::NewEmptyBuffer => out1 == out0 && post.status_bar.message@
            == "new buffer"@,
    }
}



/// What an open request does: a buffer already at the path is shown and
/// announced; otherwise a fresh buffer is created and bound, and a watch
/// plus a load request go out for it.
pub open spec fn open_requested_post(
    pre: AppState,
    post: AppState,
    path: String,
    out0: Seq<IoRequest>,
    out1: Seq<IoRequest>,
) -> bool {
    &&& (out1 == out0 || (out1.len() == out0.len() + 2 && out1.take(out0.len() as int) == out0))
    &&& (out1 == out0 ==> post.status_bar.message@ == "switched "@ + path@)
    &&& (out1 != out0 ==> post.status_bar.message@ == "loading "@ + path@ && (out1[
        out0.len() as int
    ] matches IoRequest::Watch { buffer_id, path: p } && buffer_id == BufferId(pre.next_buffer_id)
        && p@ == path@) && (out1.last() matches IoRequest::Load {
        buffer_id: b2,
        path: p2,
        source,
    } && b2 == BufferId(pre.next_buffer_id) && p2@ == path@ && source == FileLoadSource::Open))
}

/// What a finished load does. An opening load installs the text and marks
/// the buffer clean; a failed one only reports. An external load is
/// dropped when the content matches what is shown, deferred when the
/// buffer is dirty, suppressed (consuming the remembered fingerprint) when
/// it is this editor's own save coming back, and otherwise installed with
/// the cursor kept.
pub open spec fn load_completed_post(
    pre: AppState,
    post: AppState,
    buffer_id: BufferId,
    source: FileLoadSource,
    result: Result<String, String>,
    out0: Seq<IoRequest>,
    out1: Seq<IoRequest>,
) -> bool {
    &&& out1 == out0
    &&& match (source, result) {
        (FileLoadSource::Open, Ok(text)) => {
            &&& post.status_bar.message@ == "file loaded"@
            &&& (pre.s_buf(buffer_id) matches Some(b) ==> post.s_buf(buffer_id) == Some(
                BufferState { text: text, dirty: false, externally_modified: false, ..b },
            ) && (forall|b2: BufferId| b2 != buffer_id ==> post.s_buf(b2) == pre.s_buf(b2)))
        },
        (FileLoadSource::Open, Err(e)) => AppState::only_message(pre, post)
            && post.status_bar.message@ == "load failed: "@ + e@,
        (FileLoadSource::External, Ok(text)) => match pre.s_buf(buffer_id) {
            None => post == pre,
            Some(b) => {
                let fp_cur = fnv1a_of(crate::text::bytes_of(b.text@));
                let fp_in = fnv1a_of(crate::text::bytes_of(text@));
                if fp_cur == fp_in {
                    post.s_buf(buffer_id) == Some(
                        BufferState { externally_modified: false, ..b },
                    ) && (forall|b2: BufferId|
                        b2 != buffer_id ==> post.s_buf(b2) == pre.s_buf(b2))
                } else if b.dirty {
                    post.s_buf(buffer_id) == Some(BufferState { externally_modified: true, ..b })
                        && (forall|b2: BufferId|
                        b2 != buffer_id ==> post.s_buf(b2) == pre.s_buf(b2))
                } else if crate::store::lookup(pre.last_internal_save_fingerprint@, buffer_id.0)
                    == Some(fp_in) {
                    post.s_buf(buffer_id) == Some(
                        BufferState { externally_modified: false, ..b },
                    ) && crate::store::lookup(post.last_internal_save_fingerprint@, buffer_id.0)
                        is None && (forall|b2: BufferId|
                        b2 != buffer_id ==> post.s_buf(b2) == pre.s_buf(b2))
                } else {
                    post.s_buf(buffer_id) matches Some(nb) && nb == (BufferState {
                        text: text,
                        cursor: nb.cursor,
                        dirty: false,
                        externally_modified: false,
                        ..b
                    }) && (forall|b2: BufferId|
                        b2 != buffer_id ==> post.s_buf(b2) == pre.s_buf(b2))
                }
            },
        },
        (FileLoadSource::External, Err(_)) => post == pre,
    }
}

/// What a finished save does: the in-flight mark goes, a fingerprint for
/// the echo check stands, a remembered path override is adopted, the
/// buffer is clean again and watched; a failed save only cleans up and
/// reports.
pub open spec fn save_completed_post(
    pre: AppState,
    post: AppState,
    buffer_id: BufferId,
    result: Result<(), String>,
    out0: Seq<IoRequest>,
    out1: Seq<IoRequest>,
) -> bool {
    match result {
        Ok(u) => {
            &&& !has_id(post.in_flight_internal_saves@, buffer_id)
            &&& post.status_bar.message@ == "file saved"@
            &&& (pre.s_buf(buffer_id) is Some ==> (post.s_buf(buffer_id) matches Some(nb)
                && nb.dirty == false && nb.externally_modified == false))
            &&& post.quit_after_save == false
            &&& (pre.pending_save_path matches Some(p) ==> (p.0 == buffer_id
                ==> post.pending_save_path is None))
            &&& (out1 == out0 || (out1.len() == out0.len() + 1 && out1.take(out0.len() as int)
                == out0 && (out1.last() matches IoRequest::Watch { buffer_id: wb, .. } && wb
                == buffer_id)))
            &&& (crate::store::lookup(pre.last_internal_save_fingerprint@, buffer_id.0) is Some
                ==> crate::store::lookup(post.last_internal_save_fingerprint@, buffer_id.0)
                == crate::store::lookup(pre.last_internal_save_fingerprint@, buffer_id.0))
        },
        Err(e) => {
            &&& !has_id(post.in_flight_internal_saves@, buffer_id)
            &&& crate::store::lookup(post.last_internal_save_fingerprint@, buffer_id.0) is None
            &&& post.quit_after_save == false
            &&& (pre.pending_save_path matches Some(p) ==> (p.0 == buffer_id
                ==> post.pending_save_path is None))
            &&& post.status_bar.message@ == "save failed: "@ + e@
            &&& out1 == out0
            &&& post.buffers == pre.buffers
        },
    }
}

/// What queueing a save of the active buffer does: a blocking external
/// change or a missing buffer/path only reports; otherwise exactly one
/// save request with the buffer's text goes out, its fingerprint and the
/// in-flight mark are recorded, and the quit-after-save wish is stored.
pub open spec fn save_enqueue_post(
    pre: AppState,
    post: AppState,
    quit_after_save: bool,
    force_overwrite: bool,
    path_override: Option<String>,
    out0: Seq<IoRequest>,
    out1: Seq<IoRequest>,
) -> bool {
    &&& (pre.s_active_buffer() matches Some(b) ==> ((!force_overwrite && path_override is None
        && b.externally_modified) ==> out1 == out0 && post.status_bar.message@
        == "save blocked: file changed externally (use :w! to overwrite)"@
        && post.quit_after_save == false))
    &&& (pre.s_active_buffer() is None ==> out1 == out0 && post.quit_after_save == false
        && crate::strutil::spec_starts(post.status_bar.message@, "save failed: "@))
    &&& (pre.s_active_buffer() matches Some(b) ==> ((force_overwrite || path_override is Some
        || !b.externally_modified) && (path_override is Some || b.path is Some) ==> out1.len()
        == out0.len() + 1 && out1.take(out0.len() as int) == out0 && (out1.last() matches
        IoRequest::Save { buffer_id, path, text } && Some(buffer_id) == pre.s_active_buffer_id()
        && text@ == pre.s_active_text() && (path_override matches Some(p) ==> path == p))
        && post.quit_after_save == quit_after_save && post.status_bar.message@ == "saving..."@
        && crate::store::lookup(
        post.last_internal_save_fingerprint@,
        pre.s_active_buffer_id().unwrap().0,
    ) == Some(fnv1a_of(crate::text::bytes_of(pre.s_active_text()))) && has_id(
        post.in_flight_internal_saves@,
        pre.s_active_buffer_id().unwrap(),
    )))
}

/// What queueing a reload does: a dirty buffer blocks it unless forced;
/// with a path one load request goes out and the status says so.
pub open spec fn reload_enqueue_post(
    pre: AppState,
    post: AppState,
    force_reload: bool,
    out0: Seq<IoRequest>,
    out1: Seq<IoRequest>,
) -> bool {
    &&& (pre.s_active_buffer() matches Some(b) ==> ((!force_reload && b.dirty) ==> out1 == out0
        && post == (AppState { status_bar: post.status_bar, ..pre }) && post.status_bar.message@
        == "reload blocked: buffer is dirty (use :e! to force reload)"@))
    &&& (pre.s_active_buffer() matches Some(b2) ==> (((force_reload || !b2.dirty) && b2.path
        is Some) ==> out1.len() == out0.len() + 1 && out1.take(out0.len() as int) == out0 && (
    out1.last() matches IoRequest::Load { buffer_id, path, source } && Some(buffer_id)
        == pre.s_active_buffer_id() && Some(path) == b2.path && source == FileLoadSource::Open)
        && crate::strutil::spec_starts(post.status_bar.message@, "loading "@)))
    &&& (pre.s_active_buffer() is None ==> out1 == out0 && crate::strutil::spec_starts(
        post.status_bar.message@,
        "reload failed: "@,
    ))
}

/// What queueing a save of all buffers does: only save requests go out,
/// and when any went the status reports how many.
pub open spec fn save_all_enqueue_post(
    pre: AppState,
    post: AppState,
    out0: Seq<IoRequest>,
    out1: Seq<IoRequest>,
) -> bool {
    &&& out1.len() >= out0.len()
    &&& out1.take(out0.len() as int) == out0
    &&& forall|i: int|
        out0.len() <= i < out1.len() ==> ((#[trigger] out1[i]) matches IoRequest::Save { .. })
    &&& (out1.len() > out0.len() ==> post.quit_after_save == false
        && crate::strutil::spec_starts(post.status_bar.message@, "saving "@))
}

impl ActionHandlerState {
    /// Queues a save of the active buffer, unless an external change
    /// blocks it; remembers a path override until the save completes.
    fn enqueue_save_active_buffer(
        &mut self,
        state: &mut AppState,
        quit_after_save: bool,
        force_overwrite: bool,
        path_override: Option<String>,
        out: &mut Vec<IoRequest>,
    )
        ensures
            save_enqueue_post(
                *old(state),
                *final(state),
                quit_after_save,
                force_overwrite,
                path_override,
                old(out)@,
                final(out)@,
            ),
    {
        let blocked = !force_overwrite && path_override.is_none() && match state
            .active_buffer_is_externally_modified() {
            Some(true) => true,
            _ => false,
        };
        if blocked {
            state.status_bar.message = String::from_str(
                "save blocked: file changed externally (use :w! to overwrite)",
            );
            state.quit_after_save = false;
            proof {
                reveal_strlit("save blocked: file changed externally (use :w! to overwrite)");
            }
            return ;
        }
        let bind_override_path = path_override.is_some() && match state.active_buffer_has_path() {
            Some(false) => true,
            _ => false,
        };
        let override_copy = match &path_override {
            Some(p) => Some(p.clone()),
            None => None,
        };
        let snapshot = state.active_buffer_save_snapshot(override_copy);
        let (buffer_id, path, text) = match snapshot {
            Ok(s) => s,
            Err(reason) => {
                let mut msg = String::from_str("save failed: ");
                msg.append(reason);
                state.status_bar.message = msg;
                state.quit_after_save = false;
                proof {
                    reveal_strlit("save failed: ");
                    assert(state.status_bar.message@.take(13) =~= "save failed: "@);
                }
                return ;
            },
        };
        let fp = text_fingerprint(text.as_str());
        proof {
            assert(fp == fnv1a_of(crate::text::bytes_of(old(state).s_active_text())));
        }
        set_fingerprint(state, buffer_id, fp);
        let ghost had = state.in_flight_internal_saves@;
        if !in_flight_contains(state, buffer_id) {
            state.in_flight_internal_saves.push(buffer_id);
            proof {
                lemma_has_id_push(had, buffer_id, buffer_id);
            }
        }
        out.push(IoRequest::Save { buffer_id, path, text });
        proof {
            assert(out@.take(old(out)@.len() as int) =~= old(out)@);
        }
        if bind_override_path {
            state.set_pending_save_path(buffer_id, path_override);
        } else {
            state.set_pending_save_path(buffer_id, None);
        }
        state.quit_after_save = quit_after_save;
        state.status_bar.message = String::from_str("saving...");
        proof {
            reveal_strlit("saving...");
        }
    }

    /// Queues a reload of the active buffer from its path; a dirty buffer
    /// blocks it unless forced.
    fn enqueue_reload_active_buffer(&mut self, state: &mut AppState, force_reload: bool, out: &mut Vec<IoRequest>)
        ensures
            reload_enqueue_post(*old(state), *final(state), force_reload, old(out)@, final(out)@),
    {
        let active_is_dirty = {
            let bid = state.active_buffer_id();
            match bid {
                Some(b) => match crate::store::find_idx(&state.buffers, b.0) {
                    Some(bi) => state.buffers[bi].val.dirty,
                    None => false,
                },
                None => false,
            }
        };
        if !force_reload && active_is_dirty {
            state.status_bar.message = String::from_str(
                "reload blocked: buffer is dirty (use :e! to force reload)",
            );
            proof {
                reveal_strlit("reload blocked: buffer is dirty (use :e! to force reload)");
            }
            return ;
        }
        let (buffer_id, path) = match state.active_buffer_load_target() {
            Ok(t) => t,
            Err(reason) => {
                let mut msg = String::from_str("reload failed: ");
                msg.append(reason);
                state.status_bar.message = msg;
                proof {
                    reveal_strlit("reload failed: ");
                    assert(state.status_bar.message@.take(15) =~= "reload failed: "@);
                }
                return ;
            },
        };
        let mut msg = String::from_str("loading ");
        msg.append(path.as_str());
        out.push(IoRequest::Load { buffer_id, path, source: FileLoadSource::Open });
        state.status_bar.message = msg;
        proof {
            reveal_strlit("loading ");
            assert(out@.take(old(out)@.len() as int) =~= old(out)@);
            assert(state.status_bar.message@.take(8) =~= "loading "@);
        }
    }

    /// Queues a save of every buffer that has a path: one save request per
    /// such buffer.
    fn enqueue_save_all_buffers(&mut self, state: &mut AppState, out: &mut Vec<IoRequest>)
        ensures
            save_all_enqueue_post(*old(state), *final(state), old(out)@, final(out)@),
    {
        proof {
            assert(out@.take(out@.len() as int) =~= out@);
        }
        let (snapshots, missing_path) = state.all_buffer_save_snapshots();
        if snapshots.len() == 0 {
            if missing_path > 0 {
                state.status_bar.message = String::from_str(
                    "save failed: no buffer has file path",
                );
            } else {
                state.status_bar.message = String::from_str("nothing to save");
            }
            return ;
        }
        let mut enqueued: usize = 0;
        let n = snapshots.len();
        let mut i: usize = 0;
        while i < n
            invariant
                n == snapshots@.len(),
                0 <= i <= n,
                out@.len() >= old(out)@.len(),
                out@.take(old(out)@.len() as int) == old(out)@,
                forall|j: int|
                    old(out)@.len() <= j < out@.len() ==> ((#[trigger] out@[j]) matches
                        IoRequest::Save { .. }),
            decreases n - i,
        {
            let buffer_id = snapshots[i].0;
            let path = snapshots[i].1.clone();
            let text = snapshots[i].2.clone();
            let fp = text_fingerprint(text.as_str());
            set_fingerprint(state, buffer_id, fp);
            if !in_flight_contains(state, buffer_id) {
                state.in_flight_internal_saves.push(buffer_id);
            }
            out.push(IoRequest::Save { buffer_id, path, text });
            proof {
                assert(out@.take(old(out)@.len() as int) =~= old(out)@);
            }
            enqueued = enqueued.saturating_add(1);
            i = i + 1;
        }
        state.quit_after_save = false;
        if missing_path > 0 {
            let mut msg = String::from_str("saving ");
            msg.append(crate::strutil::u64_to_string(enqueued as u64).as_str());
            msg.append(" buffers (");
            msg.append(crate::strutil::u64_to_string(missing_path as u64).as_str());
            msg.append(" skipped: no path)");
            state.status_bar.message = msg;
        } else {
            let mut msg = String::from_str("saving ");
            msg.append(crate::strutil::u64_to_string(enqueued as u64).as_str());
            msg.append(" buffers...");
            state.status_bar.message = msg;
        }
        proof {
            reveal_strlit("saving ");
            assert(state.status_bar.message@.take(7) =~= "saving "@);
        }
    }

    fn do_enter_insert(state: &mut AppState)
        ensures
            insert_mode_entry(*old(state), *final(state)),
    {
        ActionHandlerState::begin_insert_undo_group(state);
        state.enter_insert_mode();
    }

    fn do_append_insert(state: &mut AppState)
        ensures
            append_insert_post(*old(state), *final(state)),
    {
        ActionHandlerState::begin_insert_undo_group(state);
        let ghost m1 = *state;
        proof {
            assert(m1.s_active_buffer_id() == old(state).s_active_buffer_id());
            assert(m1.s_active_cursor() == old(state).s_active_cursor());
            assert(m1.s_max_col_for_row(m1.s_active_cursor().row) == old(state).s_max_col_for_row(
                old(state).s_active_cursor().row,
            ));
        }
        state.move_cursor_right_for_insert();
        let ghost m2 = *state;
        proof {
            assert(AppState::windows_scroll_frame(*old(state), m2)) by {
                assert(AppState::windows_scroll_frame(m1, m2));
                assert(m1.windows == old(state).windows);
            }
        }
        state.enter_insert_mode();
        proof {
            assert(AppState::windows_scroll_frame(*old(state), *state)) by {
                assert(state.windows == m2.windows);
            }
            match old(state).s_active_buffer_id() {
                Some(bid) => {
                    assert forall|b2: BufferId| b2 != bid implies state.s_buf(b2) == old(
                        state,
                    ).s_buf(b2) by {
                        assert(m1.s_buf(b2) == old(state).s_buf(b2));
                        assert(state.s_buf(b2) == m2.s_buf(b2));
                    }
                    assert(m1.s_buf(bid) == old(state).s_buf(bid));
                    assert(state.s_buf(bid) == m2.s_buf(bid));
                },
                None => {},
            }
        }
    }

    fn do_open_insert(state: &mut AppState, below: bool)
        ensures
            open_insert_post(*old(state), *final(state), below),
    {
        ActionHandlerState::begin_insert_undo_group(state);
        let ghost m1 = *state;
        proof {
            assert(m1.s_active_buffer_id() == old(state).s_active_buffer_id());
            assert(m1.s_active_cursor() == old(state).s_active_cursor());
            assert(m1.s_active_text() == old(state).s_active_text());
            assert(m1.s_active_buffer() == old(state).s_active_buffer());
        }
        let pre_edit = if below {
            capture_open_line_below_pre_edit(state)
        } else {
            capture_open_line_above_pre_edit(state)
        };
        if below {
            state.open_line_below_at_cursor();
        } else {
            state.open_line_above_at_cursor();
        }
        let ghost m2 = *state;
        proof {
            assert(AppState::windows_scroll_frame(*old(state), m2)) by {
                assert(AppState::windows_scroll_frame(m1, m2));
                assert(m1.windows == old(state).windows);
            }
        }
        match pre_edit {
            Some((buffer_id, edit)) => {
                ActionHandlerState::append_insert_undo_edit(state, buffer_id, edit);
            },
            None => {},
        }
        let ghost m3 = *state;
        state.enter_insert_mode();
        proof {
            assert(AppState::windows_scroll_frame(*old(state), *state)) by {
                assert(state.windows == m2.windows);
            }
            match old(state).s_active_buffer_id() {
                Some(bid) => {
                    assert forall|b2: BufferId| b2 != bid implies state.s_buf(b2) == old(
                        state,
                    ).s_buf(b2) by {
                        assert(m1.s_buf(b2) == old(state).s_buf(b2));
                        assert(m3.s_buf(b2) == m2.s_buf(b2));
                        assert(state.s_buf(b2) == m3.s_buf(b2));
                    }
                    assert(m1.s_buf(bid) == old(state).s_buf(bid));
                    assert(m3.s_buf(bid) == m2.s_buf(bid));
                    assert(state.s_buf(bid) == m3.s_buf(bid));
                },
                None => {},
            }
        }
    }

    /// Applies a resolved editor command (never a raw keystroke).
    fn apply_editor_action(&mut self, state: &mut AppState, action: EditorAction, out: &mut Vec<IoRequest>)
        ensures
            editor_effect(*old(state), *final(state), action, old(out)@, final(out)@),
    {
        match action {
            EditorAction::KeyPressed(_) => {},
            EditorAction::EnterInsert => {
                ActionHandlerState::do_enter_insert(state);
            },
            EditorAction::AppendInsert => {
                ActionHandlerState::do_append_insert(state);
            },
            EditorAction::OpenLineBelowInsert => {
                ActionHandlerState::do_open_insert(state, true);
            },
            EditorAction::OpenLineAboveInsert => {
                ActionHandlerState::do_open_insert(state, false);
            },
            EditorAction::EnterCommandMode => state.enter_command_mode(),
            EditorAction::EnterVisualMode => state.enter_visual_mode(),
            EditorAction::EnterVisualLineMode => state.enter_visual_line_mode(),
            EditorAction::MoveLeft => state.move_cursor_left(),
            EditorAction::MoveLineStart => state.move_cursor_line_start(),
            EditorAction::MoveLineEnd => state.move_cursor_line_end(),
            EditorAction::MoveDown => state.move_cursor_down(),
            EditorAction::MoveUp => state.move_cursor_up(),
            EditorAction::MoveRight => state.move_cursor_right(),
            EditorAction::MoveFileStart => state.move_cursor_file_start(),
            EditorAction::MoveFileEnd => state.move_cursor_file_end(),
            EditorAction::ScrollViewDown => state.scroll_view_down_one_line(),
            EditorAction::ScrollViewUp => state.scroll_view_up_one_line(),
            EditorAction::ScrollViewHalfPageDown => state.scroll_view_down_half_page(),
            EditorAction::ScrollViewHalfPageUp => state.scroll_view_up_half_page(),
            EditorAction::Undo => state.undo_active_buffer_edit(),
            EditorAction::Redo => state.redo_active_buffer_edit(),
            EditorAction::JoinLineBelow => state.join_line_below_at_cursor(),
            EditorAction::CutCharToSlot => state.cut_current_char_to_slot(),
            EditorAction::PasteSlotAfterCursor => state.paste_slot_at_cursor(),
            EditorAction::DeleteCurrentLineToSlot => state.delete_current_line_to_slot(),
            EditorAction::CloseActiveBuffer => {
                let closed = state.active_buffer_id();
                state.close_active_buffer();
                match closed {
                    Some(buffer_id) => {
                        out.push(IoRequest::Unwatch { buffer_id });
                    },
                    None => {},
                }
            },
            EditorAction::NewEmptyBuffer => {
                let _ = state.create_untitled_buffer();
            },
        }
    }

    /// Routes any action but a raw keystroke; reports whether the editor
    /// should shut down. Only a quit command or the completion of a save
    /// that was to quit afterwards ends the loop.
    fn dispatch_action(&mut self, state: &mut AppState, action: AppAction, out: &mut Vec<IoRequest>) -> (r: Flow)
        ensures
            dispatch_post(*old(state), *final(state), action, old(out)@, final(out)@, r),
            r == Flow::Quit ==> (action == AppAction::System(SystemAction::Quit) || action matches
                AppAction::File(FileAction::SaveCompleted { .. })),
    {
        match action {
            AppAction::Editor(editor_action) => {
                self.apply_editor_action(state, editor_action, out);
            },
            AppAction::Layout(LayoutAction::SplitHorizontal) => {
                state.split_active_window(SplitAxis::Horizontal);
            },
            AppAction::Layout(LayoutAction::SplitVertical) => {
                state.split_active_window(SplitAxis::Vertical);
            },
            AppAction::Layout(LayoutAction::ViewportResized { .. }) => {},
            AppAction::Window(WindowAction::FocusLeft) => state.focus_window(FocusDirection::Left),
            AppAction::Window(WindowAction::FocusDown) => state.focus_window(FocusDirection::Down),
            AppAction::Window(WindowAction::FocusUp) => state.focus_window(FocusDirection::Up),
            AppAction::Window(WindowAction::FocusRight) => state.focus_window(
                FocusDirection::Right,
            ),
            AppAction::Window(WindowAction::CloseActive) => state.close_active_window(),
            AppAction::Buffer(BufferAction::SwitchPrev) => {
                state.switch_active_window_buffer(BufferSwitchDirection::Prev);
            },
            AppAction::Buffer(BufferAction::SwitchNext) => {
                state.switch_active_window_buffer(BufferSwitchDirection::Next);
            },
            AppAction::Tab(TabAction::New) => {
                let _ = state.open_new_tab();
            },
            AppAction::Tab(TabAction::CloseCurrent) => {
                state.close_current_tab();
            },
            AppAction::Tab(TabAction::SwitchPrev) => {
                state.switch_to_prev_tab();
            },
            AppAction::Tab(TabAction::SwitchNext) => {
                state.switch_to_next_tab();
            },
            AppAction::File(FileAction::LoadCompleted { buffer_id, source, result }) => {
                return self.handle_load_completed(state, buffer_id, source, result, out);
            },
            AppAction::File(FileAction::OpenRequested { path }) => {
                return self.handle_open_requested(state, path, out);
            },
            AppAction::File(FileAction::ExternalChangeDetected { buffer_id, path }) => {
                if in_flight_contains(state, buffer_id) {
                    return Flow::Continue;
                }
                let known = match crate::store::find_idx(&state.buffers, buffer_id.0) {
                    Some(bi) => Some(state.buffers[bi].val.dirty),
                    None => None,
                };
                match known {
                    None => {},
                    Some(true) => {
                        state.set_buffer_externally_modified(buffer_id, true);
                        let is_active = match state.active_buffer_id() {
                            Some(b) => b == buffer_id,
                            None => false,
                        };
                        if is_active {
                            state.status_bar.message = String::from_str(
                                "file changed externally; use :w! to overwrite or :e! to reload",
                            );
                        }
                    },
                    Some(false) => {
                        out.push(
                            IoRequest::Load { buffer_id, path, source: FileLoadSource::External },
                        );
                        proof {
                            assert(out@.take(old(out)@.len() as int) =~= old(out)@);
                        }
                    },
                }
            },
            AppAction::File(FileAction::SaveCompleted { buffer_id, result }) => {
                return self.handle_save_completed(state, buffer_id, result, out);
            },
            AppAction::System(SystemAction::Quit) => {
                return Flow::Quit;
            },
        }
        Flow::Continue
    }

    fn handle_open_requested(&mut self, state: &mut AppState, path: String, out: &mut Vec<IoRequest>) -> (r: Flow)
        ensures
            r == Flow::Continue,
            open_requested_post(*old(state), *final(state), path, old(out)@, final(out)@),
    {
        let existing = state.find_buffer_by_path(path.as_str());
        match existing {
            Some(buffer_id) => {
                state.bind_buffer_to_active_window(buffer_id);
                let mut msg = String::from_str("switched ");
                msg.append(path.as_str());
                state.status_bar.message = msg;
                proof {
                    reveal_strlit("switched ");
                }
                return Flow::Continue;
            },
            None => {},
        }
        let buffer_id = state.create_buffer(Some(path.clone()), String::new());
        state.bind_buffer_to_active_window(buffer_id);
        let mut msg = String::from_str("loading ");
        msg.append(path.as_str());
        state.status_bar.message = msg;
        out.push(IoRequest::Watch { buffer_id, path: path.clone() });
        out.push(IoRequest::Load { buffer_id, path, source: FileLoadSource::Open });
        proof {
            reveal_strlit("loading ");
            assert(out@.take(old(out)@.len() as int) =~= old(out)@);
            assert(out@[old(out)@.len() as int] == out@[out@.len() - 2]);
            assert(out@ != old(out)@);
        }
        Flow::Continue
    }

    fn handle_load_completed(
        &mut self,
        state: &mut AppState,
        buffer_id: BufferId,
        source: FileLoadSource,
        result: Result<String, String>,
        out: &mut Vec<IoRequest>,
    ) -> (r: Flow)
        ensures
            r == Flow::Continue,
            load_completed_post(
                *old(state),
                *final(state),
                buffer_id,
                source,
                result,
                old(out)@,
                final(out)@,
            ),
    {
        match (source, result) {
            (FileLoadSource::Open, Ok(text)) => {
                let ghost text_g = text;
                match crate::store::find_idx(&state.buffers, buffer_id.0) {
                    Some(bi) => {
                        let ghost pre0 = state.buffers@;
                        let b = &mut state.buffers[bi];
                        b.val.text = text;
                        proof {
                            let nb = final(b).val;
                            assert(state.buffers@ =~= pre0.update(
                                bi as int,
                                crate::store::Entry { key: buffer_id.0, val: nb },
                            ));
                            crate::store::lemma_lookup_update(pre0, bi as int, nb, 0u64);
                            assert forall|b2: BufferId| b2 != buffer_id implies
                                crate::store::lookup(state.buffers@, b2.0) == crate::store::lookup(
                                pre0,
                                b2.0,
                            ) by {
                                crate::store::lemma_lookup_update(pre0, bi as int, nb, b2.0);
                            }
                        }
                    },
                    None => {},
                }
                let ghost m1 = *state;
                state.set_buffer_dirty(buffer_id, false);
                let ghost m2 = *state;
                state.set_buffer_externally_modified(buffer_id, false);
                state.status_bar.message = String::from_str("file loaded");
                proof {
                    reveal_strlit("file loaded");
                    match old(state).s_buf(buffer_id) {
                        Some(b0) => {
                            assert(m1.s_buf(buffer_id) == Some(
                                BufferState { text: text_g, ..b0 },
                            ));
                            assert(state.s_buf(buffer_id) == Some(
                                BufferState {
                                    text: text_g,
                                    dirty: false,
                                    externally_modified: false,
                                    ..b0
                                },
                            ));
                            assert forall|b2: BufferId| b2 != buffer_id implies state.s_buf(b2)
                                == old(state).s_buf(b2) by {
                                assert(m1.s_buf(b2) == old(state).s_buf(b2));
                                assert(m2.s_buf(b2) == m1.s_buf(b2));
                                assert(state.s_buf(b2) == m2.s_buf(b2));
                            }
                        },
                        None => {},
                    }
                }
            },
            (FileLoadSource::Open, Err(err)) => {
                let mut msg = String::from_str("load failed: ");
                msg.append(err.as_str());
                state.status_bar.message = msg;
                proof {
                    reveal_strlit("load failed: ");
                }
            },
            (FileLoadSource::External, Ok(text)) => {
                let is_active = match state.active_buffer_id() {
                    Some(b) => b == buffer_id,
                    None => false,
                };
                let info = match crate::store::find_idx(&state.buffers, buffer_id.0) {
                    Some(bi) => Some(
                        (
                            text_fingerprint(state.buffers[bi].val.text.as_str()),
                            state.buffers[bi].val.dirty,
                            state.buffers[bi].val.name.clone(),
                        ),
                    ),
                    None => None,
                };
                let (current_fingerprint, is_dirty, name) = match info {
                    Some(t) => t,
                    None => {
                        return Flow::Continue;
                    },
                };
                let incoming_fingerprint = text_fingerprint(text.as_str());
                proof {
                    match old(state).s_buf(buffer_id) {
                        Some(b0) => {
                            assert(current_fingerprint == fnv1a_of(
                                crate::text::bytes_of(b0.text@),
                            ));
                            assert(incoming_fingerprint == fnv1a_of(
                                crate::text::bytes_of(text@),
                            ));
                        },
                        None => {},
                    }
                }
                if current_fingerprint == incoming_fingerprint {
                    state.set_buffer_externally_modified(buffer_id, false);
                    if is_active && crate::strutil::str_starts_with(
                        state.status_bar.message.as_str(),
                        "reloading ",
                    ) {
                        state.status_bar.message = String::from_str("file saved");
                    }
                    return Flow::Continue;
                }
                if is_dirty {
                    state.set_buffer_externally_modified(buffer_id, true);
                    if is_active {
                        state.status_bar.message = String::from_str(
                            "file changed externally; use :w! to overwrite or :e! to reload",
                        );
                    }
                    return Flow::Continue;
                }
                let ignore = should_ignore_external_reload(state, buffer_id, text.as_str());
                let ghost mi = *state;
                if ignore {
                    state.set_buffer_externally_modified(buffer_id, false);
                    if is_active {
                        state.status_bar.message = String::from_str("file saved");
                    }
                    proof {
                        assert forall|b2: BufferId| b2 != buffer_id implies state.s_buf(b2)
                            == old(state).s_buf(b2) by {
                            assert(mi.s_buf(b2) == old(state).s_buf(b2));
                            assert(state.s_buf(b2) == mi.s_buf(b2));
                        }
                    }
                    return Flow::Continue;
                }
                let ghost text_g2 = text;
                let ghost m1 = *state;
                state.replace_buffer_text_preserving_cursor(buffer_id, text);
                let ghost m2 = *state;
                state.set_buffer_dirty(buffer_id, false);
                let ghost m3 = *state;
                state.set_buffer_externally_modified(buffer_id, false);
                if is_active {
                    let mut msg = String::from_str("reloaded ");
                    msg.append(name.as_str());
                    state.status_bar.message = msg;
                }
                proof {
                    match old(state).s_buf(buffer_id) {
                        Some(b0) => {
                            assert(m1.s_buf(buffer_id) == Some(b0));
                            assert forall|b2: BufferId| b2 != buffer_id implies state.s_buf(b2)
                                == old(state).s_buf(b2) by {
                                assert(m1.s_buf(b2) == old(state).s_buf(b2));
                                assert(m2.s_buf(b2) == m1.s_buf(b2));
                                assert(m3.s_buf(b2) == m2.s_buf(b2));
                                assert(state.s_buf(b2) == m3.s_buf(b2));
                            }
                        },
                        None => {},
                    }
                }
            },
            (FileLoadSource::External, Err(_err)) => {},
        }
        Flow::Continue
    }

    fn handle_save_completed(
        &mut self,
        state: &mut AppState,
        buffer_id: BufferId,
        result: Result<(), String>,
        out: &mut Vec<IoRequest>,
    ) -> (r: Flow)
        ensures
            save_completed_post(
                *old(state),
                *final(state),
                buffer_id,
                result,
                old(out)@,
                final(out)@,
            ),
            result matches Ok(u) ==> (r == Flow::Quit <==> old(state).quit_after_save),
            result is Err ==> r == Flow::Continue,
    {
        match result {
            Ok(()) => {
                in_flight_remove(state, buffer_id);
                if !fingerprint_contains(state, buffer_id) {
                    let text = match crate::store::find_idx(&state.buffers, buffer_id.0) {
                        Some(bi) => Some(state.buffers[bi].val.text.clone()),
                        None => None,
                    };
                    match text {
                        Some(t) => {
                            let fp = text_fingerprint(t.as_str());
                            set_fingerprint(state, buffer_id, fp);
                        },
                        None => {},
                    }
                }
                state.apply_pending_save_path_if_matches(buffer_id);
                let path = match crate::store::find_idx(&state.buffers, buffer_id.0) {
                    Some(bi) => match &state.buffers[bi].val.path {
                        Some(p) => Some(p.clone()),
                        None => None,
                    },
                    None => None,
                };
                match path {
                    Some(p) => {
                        out.push(IoRequest::Watch { buffer_id, path: p });
                        proof {
                            assert(out@.take(old(out)@.len() as int) =~= old(out)@);
                        }
                    },
                    None => {},
                }
                state.set_buffer_dirty(buffer_id, false);
                state.set_buffer_externally_modified(buffer_id, false);
                state.status_bar.message = String::from_str("file saved");
                proof {
                    reveal_strlit("file saved");
                }
                if state.quit_after_save {
                    state.quit_after_save = false;
                    return Flow::Quit;
                }
            },
            Err(err) => {
                in_flight_remove(state, buffer_id);
                fingerprint_remove(state, buffer_id);
                state.quit_after_save = false;
                state.clear_pending_save_path_if_matches(buffer_id);
                let mut msg = String::from_str("save failed: ");
                msg.append(err.as_str());
                state.status_bar.message = msg;
                proof {
                    reveal_strlit("save failed: ");
                }
            },
        }
        Flow::Continue
    }

    /// Feeds one keystroke through the mode machine: alt aborts the
    /// pending chord, each mode's handler takes the key, a captured
    /// snapshot becomes history once the mutation ran, and leaving insert
    /// mode commits the open insert group.
    pub fn handle_key(&mut self, state: &mut AppState, key: KeyEvent, out: &mut Vec<IoRequest>) -> (r: Flow)
        ensures
            key.alt ==> *final(state) == (AppState {
                normal_sequence: final(state).normal_sequence,
                visual_g_pending: final(state).visual_g_pending,
                status_bar: final(state).status_bar,
                ..*old(state)
            }) && final(state).normal_sequence@.len() == 0 && final(state).status_bar == (
            StatusBarState {
                key_sequence: final(state).status_bar.key_sequence,
                ..old(state).status_bar
            }) && final(state).status_bar.key_sequence@.len() == 0 && r == Flow::Continue
                && final(out)@ == old(out)@,
            old(state).mode == EditorMode::Insert && final(state).mode != EditorMode::Insert
                ==> final(state).pending_insert_group is None,
            !key.alt && old(state).mode == EditorMode::Command ==> exists|mid: AppState|
                #[trigger] command_key_effect(
                    mid,
                    *final(state),
                    key,
                    old(out)@,
                    final(out)@,
                    r,
                ) && mid.normal_sequence@ == Seq::<NormalSequenceKey>::empty()
                    && mid.status_bar.key_sequence@ == Seq::<char>::empty() && mid == (AppState {
                    normal_sequence: mid.normal_sequence,
                    visual_g_pending: false,
                    status_bar: mid.status_bar,
                    ..*old(state)
                }) && mid.status_bar == (StatusBarState {
                    key_sequence: mid.status_bar.key_sequence,
                    ..old(state).status_bar
                }),
    {
        if !state.is_visual_mode() {
            state.visual_g_pending = false;
        }
        if key.alt {
            state.normal_sequence = Vec::new();
            state.status_bar.key_sequence = String::new();
            return Flow::Continue;
        }
        let mode_before = state.mode;
        let pre_edit_capture = capture_pre_edit_snapshot(state, mode_before, key);
        let flow = if state.is_command_mode() {
            state.normal_sequence = Vec::new();
            state.status_bar.key_sequence = String::new();
            let ghost cmid = *state;
            let cflow = self.handle_command_mode_key(state, key, out);
            proof {
                assert(command_key_effect(cmid, *state, key, old(out)@, out@, cflow));
            }
            cflow
        } else if state.is_visual_mode() {
            state.normal_sequence = Vec::new();
            state.status_bar.key_sequence = String::new();
            self.handle_visual_mode_key(state, key)
        } else if state.is_insert_mode() {
            state.normal_sequence = Vec::new();
            state.status_bar.key_sequence = String::new();
            let insert_edit = capture_insert_mode_pre_edit(state, key);
            let flow = self.handle_insert_mode_key(state, key);
            match insert_edit {
                Some((buffer_id, edit)) => {
                    ActionHandlerState::append_insert_undo_edit(state, buffer_id, edit);
                },
                None => {},
            }
            flow
        } else {
            self.handle_normal_mode_key(state, key, out)
        };
        match pre_edit_capture {
            Some(PreEditCapture::Entry { buffer_id, entry }) => {
                state.push_buffer_history_entry(buffer_id, entry);
            },
            None => {},
        }
        if mode_before == EditorMode::Insert && state.mode != EditorMode::Insert {
            ActionHandlerState::commit_insert_undo_group(state);
        }
        flow
    }

    /// Accumulates a normal-mode keystroke into the chord and acts on the
    /// result: a match runs its command, a pending chord is echoed, and a
    /// dead end retries with just the new token before clearing.
    pub fn handle_normal_mode_key(&mut self, state: &mut AppState, key: KeyEvent, out: &mut Vec<IoRequest>) -> (r: Flow)
        ensures
            spec_to_normal_key(old(state).leader_key, key) is None
                ==> final(state).normal_sequence@.len() == 0
                && final(state).status_bar.key_sequence@.len() == 0 && chord_only(
                *old(state),
                *final(state),
            ) && r == Flow::Continue && final(out)@ == old(out)@,
            spec_to_normal_key(old(state).leader_key, key) matches Some(k) ==> (
            backtrack_runs_no_command(old(state).normal_sequence@.push(k))
                ==> final(state).normal_sequence@ == spec_backtrack(
                old(state).normal_sequence@.push(k),
            ) && chord_only(*old(state), *final(state)) && r == Flow::Continue
                && final(out)@ == old(out)@),
            spec_to_normal_key(old(state).leader_key, key) matches Some(k) ==> (spec_resolve(
                old(state).normal_sequence@.push(k),
            ) matches SequenceMatch::Pending ==> final(state).status_bar.key_sequence@
                == spec_render_keys(old(state).normal_sequence@.push(k))),
            spec_to_normal_key(old(state).leader_key, key) matches Some(k) ==> (spec_resolve(
                old(state).normal_sequence@.push(k),
            ) matches SequenceMatch::Action(a) ==> dispatched_from_cleared(
                *old(state),
                *final(state),
                a,
                old(out)@,
                final(out)@,
                r,
            )),
            spec_to_normal_key(old(state).leader_key, key) matches Some(k) ==> ((spec_resolve(
                old(state).normal_sequence@.push(k),
            ) is NoMatch && old(state).normal_sequence@.push(k).len() > 1) ==> (spec_resolve(
                seq![k],
            ) matches SequenceMatch::Action(a2) ==> dispatched_from_cleared(
                *old(state),
                *final(state),
                a2,
                old(out)@,
                final(out)@,
                r,
            ))),
    {
        let normal_key = match to_normal_key(state, key) {
            Some(k) => k,
            None => {
                state.normal_sequence = Vec::new();
                state.status_bar.key_sequence = String::new();
                return Flow::Continue;
            },
        };
        let ghost pushed = old(state).normal_sequence@.push(normal_key);
        state.normal_sequence.push(normal_key);
        match resolve_normal_sequence(&state.normal_sequence) {
            SequenceMatch::Action(action) => {
                state.normal_sequence = Vec::new();
                state.status_bar.key_sequence = String::new();
                let ghost mid = *state;
                let flow = self.dispatch_action(state, action, out);
                proof {
                    let ghost a = spec_resolve(pushed);
                    assert(dispatch_post(mid, *state, spec_resolve(pushed)->Action_0, old(out)@, out@, flow));
                    assert(mid == (AppState {
                        normal_sequence: mid.normal_sequence,
                        status_bar: StatusBarState {
                            key_sequence: mid.status_bar.key_sequence,
                            ..old(state).status_bar
                        },
                        ..*old(state)
                    }));
                }
                return flow;
            },
            SequenceMatch::Pending => {
                state.status_bar.key_sequence = render_normal_sequence(&state.normal_sequence);
                return Flow::Continue;
            },
            SequenceMatch::NoMatch => {},
        }
        if state.normal_sequence.len() <= 1 {
            state.normal_sequence = Vec::new();
            state.status_bar.key_sequence = String::new();
            return Flow::Continue;
        }
        let last = state.normal_sequence[state.normal_sequence.len() - 1];
        proof {
            assert(pushed.last() == last);
        }
        let mut retry: Vec<NormalSequenceKey> = Vec::new();
        retry.push(last);
        state.normal_sequence = retry;
        proof {
            assert(state.normal_sequence@ =~= seq![pushed.last()]);
            assert(seq![pushed.last()] =~= seq![normal_key]);
        }
        match resolve_normal_sequence(&state.normal_sequence) {
            SequenceMatch::Action(action) => {
                state.normal_sequence = Vec::new();
                state.status_bar.key_sequence = String::new();
                let ghost mid = *state;
                let flow = self.dispatch_action(state, action, out);
                proof {
                    assert(dispatch_post(mid, *state, spec_resolve(seq![normal_key])->Action_0, old(out)@, out@, flow));
                    assert(mid == (AppState {
                        normal_sequence: mid.normal_sequence,
                        status_bar: StatusBarState {
                            key_sequence: mid.status_bar.key_sequence,
                            ..old(state).status_bar
                        },
                        ..*old(state)
                    }));
                }
                flow
            },
            SequenceMatch::Pending => {
                state.status_bar.key_sequence = render_normal_sequence(&state.normal_sequence);
                Flow::Continue
            },
            SequenceMatch::NoMatch => {
                state.normal_sequence = Vec::new();
                state.status_bar.key_sequence = String::new();
                Flow::Continue
            },
        }
    }

    /// An insert-mode keystroke edits at the cursor; escape leaves insert
    /// mode.
    pub fn handle_insert_mode_key(&mut self, state: &mut AppState, key: KeyEvent) -> (r: Flow)
        ensures
            r == Flow::Continue,
            insert_key_effect(*old(state), *final(state), key),
    {
        if key.ctrl {
            return Flow::Continue;
        }
        match key.code {
            KeyCode::Esc => {
                state.exit_insert_mode();
            },
            KeyCode::Enter => {
                state.insert_newline_at_cursor();
            },
            KeyCode::Backspace => {
                state.backspace_at_cursor();
            },
            KeyCode::Left => state.move_cursor_left(),
            KeyCode::Down => state.move_cursor_down(),
            KeyCode::Up => state.move_cursor_up(),
            KeyCode::Right => state.move_cursor_right_for_insert(),
            KeyCode::Tab => state.insert_char_at_cursor('\t'),
            KeyCode::Char(ch) => {
                state.insert_char_at_cursor(ch);
            },
            _ => {},
        }
        Flow::Continue
    }

    /// A visual-mode keystroke moves or collapses the selection.
    pub fn handle_visual_mode_key(&mut self, state: &mut AppState, key: KeyEvent) -> (r: Flow)
        ensures
            r == Flow::Continue,
            visual_key_effect(*old(state), *final(state), key),
    {
        if key.ctrl {
            state.visual_g_pending = false;
            proof {
                assert(*state == (AppState { visual_g_pending: false, ..*old(state) }));
            }
            match key.code {
                KeyCode::Char('e') => state.scroll_view_down_one_line(),
                KeyCode::Char('y') => state.scroll_view_up_one_line(),
                KeyCode::Char('d') => state.scroll_view_down_half_page(),
                KeyCode::Char('u') => state.scroll_view_up_half_page(),
                _ => {},
            }
            return Flow::Continue;
        }
        let is_g_toggle = match key.code {
            KeyCode::Char(c) => c == 'g',
            _ => false,
        };
        if !is_g_toggle {
            state.visual_g_pending = false;
            proof {
                assert(*state == (AppState { visual_g_pending: false, ..*old(state) }));
            }
        }
        match key.code {
            KeyCode::Esc => {
                state.exit_visual_mode();
            },
            KeyCode::Char('v') => state.enter_visual_line_mode(),
            KeyCode::Char('V') => state.enter_visual_line_mode(),
            KeyCode::Char('d') => state.delete_visual_selection_to_slot(),
            KeyCode::Char('y') => state.yank_visual_selection_to_slot(),
            KeyCode::Char('p') => state.replace_visual_selection_with_slot(),
            KeyCode::Char('h') => {
                if state.is_visual_line_mode() {
                    state.move_cursor_left();
                } else {
                    state.move_cursor_left_for_visual_char();
                }
            },
            KeyCode::Char('j') => state.move_cursor_down(),
            KeyCode::Char('k') => state.move_cursor_up(),
            KeyCode::Char('l') => {
                if state.is_visual_line_mode() {
                    state.move_cursor_right();
                } else {
                    state.move_cursor_right_for_visual_char();
                }
            },
            KeyCode::Char('0') => state.move_cursor_line_start(),
            KeyCode::Char('$') => state.move_cursor_line_end(),
            KeyCode::Char('g') => {
                if state.visual_g_pending {
                    state.visual_g_pending = false;
                    state.move_cursor_file_start();
                } else {
                    state.visual_g_pending = true;
                }
            },
            KeyCode::Char('G') => state.move_cursor_file_end(),
            _ => {},
        }
        Flow::Continue
    }

    /// A command-mode keystroke edits the command line; enter runs the
    /// command.
    pub fn handle_command_mode_key(&mut self, state: &mut AppState, key: KeyEvent, out: &mut Vec<IoRequest>) -> (r: Flow)
        ensures
            command_key_effect(*old(state), *final(state), key, old(out)@, final(out)@, r),
    {
        if key.ctrl {
            return Flow::Continue;
        }
        match key.code {
            KeyCode::Esc => {
                state.exit_command_mode();
            },
            KeyCode::Enter => {
                let command = state.take_command_line();
                let ghost mid = *state;
                let fr = self.run_command_line(state, command, out);
                proof {
                    assert(command_mode_exit_post(*old(state), mid));
                    assert(command_effect(
                        mid,
                        *state,
                        crate::strutil::spec_trim(old(state).command_line@),
                        old(out)@,
                        out@,
                        fr,
                    ));
                }
                return fr;
            },
            KeyCode::Backspace => state.pop_command_char(),
            KeyCode::Char(ch) => state.push_command_char(ch),
            _ => {},
        }
        Flow::Continue
    }

    /// Runs one submitted command line.
    fn run_command_line(&mut self, state: &mut AppState, command: String, out: &mut Vec<IoRequest>) -> (r: Flow)
        ensures
            command_effect(*old(state), *final(state), command@, old(out)@, final(out)@, r),
    {
        proof {
            reveal_strlit("e ");
            reveal_strlit("w! ");
            reveal_strlit("wq! ");
            reveal_strlit("wq ");
            reveal_strlit("w ");
        }
        let c = command.as_str();
        if crate::strutil::str_eq(c, "") {
            return Flow::Continue;
        }
        if crate::strutil::str_eq(c, "qa") {
            return self.dispatch_action(state, AppAction::System(SystemAction::Quit), out);
        }
        if crate::strutil::str_eq(c, "q!") || crate::strutil::str_eq(c, "quit!") {
            if state.active_tab_window_ids().len() > 1 {
                return self.dispatch_action(
                    state,
                    AppAction::Window(WindowAction::CloseActive),
                    out,
                );
            } else if state.tabs.len() > 1 {
                return self.dispatch_action(state, AppAction::Tab(TabAction::CloseCurrent), out);
            } else {
                return self.dispatch_action(state, AppAction::System(SystemAction::Quit), out);
            }
        }
        if crate::strutil::str_eq(c, "q") || crate::strutil::str_eq(c, "quit") {
            if state.has_dirty_buffers() {
                state.status_bar.message = String::from_str(
                    "quit blocked: unsaved changes (use :q!)",
                );
                return Flow::Continue;
            }
            if state.active_tab_window_ids().len() > 1 {
                return self.dispatch_action(
                    state,
                    AppAction::Window(WindowAction::CloseActive),
                    out,
                );
            } else if state.tabs.len() > 1 {
                return self.dispatch_action(state, AppAction::Tab(TabAction::CloseCurrent), out);
            } else {
                return self.dispatch_action(state, AppAction::System(SystemAction::Quit), out);
            }
        }
        if crate::strutil::str_eq(c, "w") {
            self.enqueue_save_active_buffer(state, false, false, None, out);
            return Flow::Continue;
        }
        if crate::strutil::str_eq(c, "w!") {
            self.enqueue_save_active_buffer(state, false, true, None, out);
            return Flow::Continue;
        }
        if crate::strutil::str_eq(c, "wa") {
            self.enqueue_save_all_buffers(state, out);
            return Flow::Continue;
        }
        if crate::strutil::str_eq(c, "wq") {
            self.enqueue_save_active_buffer(state, true, false, None, out);
            return Flow::Continue;
        }
        if crate::strutil::str_eq(c, "wq!") {
            self.enqueue_save_active_buffer(state, true, true, None, out);
            return Flow::Continue;
        }
        if crate::strutil::str_eq(c, "e") {
            self.enqueue_reload_active_buffer(state, false, out);
            return Flow::Continue;
        }
        if crate::strutil::str_eq(c, "e!") {
            self.enqueue_reload_active_buffer(state, true, out);
            return Flow::Continue;
        }
        if crate::strutil::str_starts_with(c, "e ") {
            let path = command_tail(c, 2);
            if path.as_str().unicode_len() == 0 {
                state.status_bar.message = String::from_str("open failed: empty path");
                return Flow::Continue;
            }
            let ghost gp: String = path;
            let fr = self.dispatch_action(
                state,
                AppAction::File(FileAction::OpenRequested { path }),
                out,
            );
            proof {
                assert(dispatch_post(
                    *old(state),
                    *state,
                    AppAction::File(FileAction::OpenRequested { path: gp }),
                    old(out)@,
                    out@,
                    fr,
                ));
            }
            return fr;
        }
        if crate::strutil::str_starts_with(c, "w! ") {
            let path = command_tail(c, 3);
            if path.as_str().unicode_len() == 0 {
                state.status_bar.message = String::from_str("save failed: empty path");
            } else {
                let ghost gp: String = path;
                self.enqueue_save_active_buffer(state, false, true, Some(path), out);
                proof {
                    assert(save_enqueue_post(
                        *old(state),
                        *state,
                        false,
                        true,
                        Some(gp),
                        old(out)@,
                        out@,
                    ));
                }
            }
            return Flow::Continue;
        }
        if crate::strutil::str_starts_with(c, "wq! ") {
            let path = command_tail(c, 4);
            if path.as_str().unicode_len() == 0 {
                state.status_bar.message = String::from_str("save failed: empty path");
            } else {
                let ghost gp: String = path;
                self.enqueue_save_active_buffer(state, true, true, Some(path), out);
                proof {
                    assert(save_enqueue_post(
                        *old(state),
                        *state,
                        true,
                        true,
                        Some(gp),
                        old(out)@,
                        out@,
                    ));
                }
            }
            return Flow::Continue;
        }
        if crate::strutil::str_starts_with(c, "wq ") {
            let path = command_tail(c, 3);
            if path.as_str().unicode_len() == 0 {
                state.status_bar.message = String::from_str("save failed: empty path");
            } else {
                let ghost gp: String = path;
                self.enqueue_save_active_buffer(state, true, false, Some(path), out);
                proof {
                    assert(save_enqueue_post(
                        *old(state),
                        *state,
                        true,
                        false,
                        Some(gp),
                        old(out)@,
                        out@,
                    ));
                }
            }
            return Flow::Continue;
        }
        if crate::strutil::str_starts_with(c, "w ") {
            let path = command_tail(c, 2);
            if path.as_str().unicode_len() == 0 {
                state.status_bar.message = String::from_str("save failed: empty path");
            } else {
                let ghost gp: String = path;
                self.enqueue_save_active_buffer(state, false, false, Some(path), out);
                proof {
                    assert(save_enqueue_post(
                        *old(state),
                        *state,
                        false,
                        false,
                        Some(gp),
                        old(out)@,
                        out@,
                    ));
                }
            }
            return Flow::Continue;
        }
        let mut msg = String::from_str("unknown command: ");
        msg.append(c);
        state.status_bar.message = msg;
        Flow::Continue
    }

    /// Routes one action: a keystroke through the mode machine, anything
    /// else straight to its handler.
    pub fn apply(&mut self, state: &mut AppState, action: AppAction, out: &mut Vec<IoRequest>) -> (r: Flow)
        ensures
            action == AppAction::System(SystemAction::Quit) ==> r == Flow::Quit,
    {
        match action {
            AppAction::Editor(EditorAction::KeyPressed(key)) => self.handle_key(state, key, out),
            other => self.dispatch_action(state, other, out),
        }
    }
}

/// The trimmed remainder of a command after its keyword.
fn command_tail(c: &str, skip: usize) -> (r: String)
    ensures
        skip <= c@.len() ==> r@ == crate::strutil::spec_trim(c@.skip(skip as int)),
{
    let n = c.unicode_len();
    let k = if skip > n {
        n
    } else {
        skip
    };
    let rest = c.substring_char(k, n);
    proof {
        assert(rest@ =~= c@.skip(k as int));
    }
    crate::strutil::trim_both(rest)
}

/// Whether the sequence holds this buffer id.
pub open spec fn has_id(s: Seq<BufferId>, b: BufferId) -> bool
    decreases s.len(),
{
    s.len() > 0 && (s[0] == b || has_id(s.drop_first(), b))
}

proof fn lemma_has_id_push(s: Seq<BufferId>, x: BufferId, b: BufferId)
    ensures
        has_id(s.push(x), b) == (has_id(s, b) || x == b),
    decreases s.len(),
{
    if s.len() == 0 {
        assert(s.push(x)[0] == x);
        assert(s.push(x).drop_first() =~= Seq::<BufferId>::empty());
        assert(!has_id(Seq::<BufferId>::empty(), b));
        assert(has_id(s.push(x), b) == (x == b || has_id(s.push(x).drop_first(), b)));
    } else {
        lemma_has_id_push(s.drop_first(), x, b);
        assert(s.push(x)[0] == s[0]);
        assert(s.push(x).drop_first() =~= s.drop_first().push(x));
    }
}

/// Whether a save for this buffer is still on its way to disk.
fn in_flight_contains(state: &AppState, buffer_id: BufferId) -> (r: bool)
    ensures
        r == has_id(state.in_flight_internal_saves@, buffer_id),
{
    let n = state.in_flight_internal_saves.len();
    let mut i: usize = 0;
    proof {
        assert(state.in_flight_internal_saves@.skip(0) =~= state.in_flight_internal_saves@);
    }
    while i < n
        invariant
            n == state.in_flight_internal_saves@.len(),
            0 <= i <= n,
            has_id(state.in_flight_internal_saves@, buffer_id) == has_id(
                state.in_flight_internal_saves@.skip(i as int),
                buffer_id,
            ),
        decreases n - i,
    {
        proof {
            assert(state.in_flight_internal_saves@.skip(i as int)[0]
                == state.in_flight_internal_saves@[i as int]);
            assert(state.in_flight_internal_saves@.skip(i as int).drop_first() =~= state
                .in_flight_internal_saves@.skip(i + 1));
        }
        if state.in_flight_internal_saves[i] == buffer_id {
            return true;
        }
        i = i + 1;
    }
    proof {
        assert(state.in_flight_internal_saves@.skip(n as int).len() == 0);
    }
    false
}

/// Forgets that a save for this buffer is in flight.
fn in_flight_remove(state: &mut AppState, buffer_id: BufferId)
    ensures
        *final(state) == (AppState {
            in_flight_internal_saves: final(state).in_flight_internal_saves,
            ..*old(state)
        }),
        !has_id(final(state).in_flight_internal_saves@, buffer_id),
        forall|b2: BufferId|
            b2 != buffer_id ==> has_id(final(state).in_flight_internal_saves@, b2) == has_id(
                old(state).in_flight_internal_saves@,
                b2,
            ),
{
    let ghost s0 = state.in_flight_internal_saves@;
    let mut kept: Vec<BufferId> = Vec::new();
    let n = state.in_flight_internal_saves.len();
    let mut i: usize = 0;
    proof {
        assert(s0.take(0) =~= Seq::<BufferId>::empty());
    }
    while i < n
        invariant
            s0 == state.in_flight_internal_saves@,
            n == s0.len(),
            0 <= i <= n,
            !has_id(kept@, buffer_id),
            forall|b2: BufferId|
                b2 != buffer_id ==> has_id(kept@, b2) == has_id(s0.take(i as int), b2),
        decreases n - i,
    {
        let b = state.in_flight_internal_saves[i];
        let ghost kept0 = kept@;
        proof {
            assert(s0.take(i + 1) =~= s0.take(i as int).push(s0[i as int]));
        }
        if b != buffer_id {
            kept.push(b);
        }
        i = i + 1;
        proof {
            assert forall|b2: BufferId| b2 != buffer_id implies has_id(kept@, b2) == has_id(
                s0.take(i as int),
                b2,
            ) by {
                lemma_has_id_push(s0.take(i - 1), s0[i - 1], b2);
                if b != buffer_id {
                    lemma_has_id_push(kept0, b, b2);
                    assert(kept@ == kept0.push(b));
                } else {
                    assert(kept@ == kept0);
                }
            }
            assert(!has_id(kept@, buffer_id)) by {
                if b != buffer_id {
                    lemma_has_id_push(kept0, b, buffer_id);
                }
            }
        }
    }
    proof {
        assert(s0.take(n as int) =~= s0);
    }
    state.in_flight_internal_saves = kept;
}

fn fingerprint_contains(state: &AppState, buffer_id: BufferId) -> (r: bool)
    ensures
        r == (crate::store::lookup(state.last_internal_save_fingerprint@, buffer_id.0) is Some),
{
    match crate::store::find_idx(&state.last_internal_save_fingerprint, buffer_id.0) {
        Some(_) => true,
        None => false,
    }
}

/// Remembers the fingerprint of the text just handed to a save, replacing
/// any earlier one for the buffer.
fn set_fingerprint(state: &mut AppState, buffer_id: BufferId, fp: u64)
    ensures
        *final(state) == (AppState {
            last_internal_save_fingerprint: final(state).last_internal_save_fingerprint,
            ..*old(state)
        }),
        crate::store::lookup(final(state).last_internal_save_fingerprint@, buffer_id.0) == Some(
            fp,
        ),
        forall|k2: u64|
            k2 != buffer_id.0 ==> crate::store::lookup(
                final(state).last_internal_save_fingerprint@,
                k2,
            ) == crate::store::lookup(old(state).last_internal_save_fingerprint@, k2),
{
    fingerprint_remove(state, buffer_id);
    let ghost mid = state.last_internal_save_fingerprint@;
    let e = crate::store::Entry { key: buffer_id.0, val: fp };
    proof {
        crate::store::lemma_lookup_push(mid, e, 0u64);
        assert forall|k2: u64| k2 != buffer_id.0 implies crate::store::lookup(
            mid.push(e),
            k2,
        ) == crate::store::lookup(mid, k2) by {
            crate::store::lemma_lookup_push(mid, e, k2);
        }
    }
    state.last_internal_save_fingerprint.push(e);
}

/// Forgets the remembered save fingerprint for this buffer.
fn fingerprint_remove(state: &mut AppState, buffer_id: BufferId)
    ensures
        *final(state) == (AppState {
            last_internal_save_fingerprint: final(state).last_internal_save_fingerprint,
            ..*old(state)
        }),
        crate::store::lookup(final(state).last_internal_save_fingerprint@, buffer_id.0) is None,
        forall|k2: u64|
            k2 != buffer_id.0 ==> crate::store::lookup(
                final(state).last_internal_save_fingerprint@,
                k2,
            ) == crate::store::lookup(old(state).last_internal_save_fingerprint@, k2),
{
    loop
        invariant_except_break
            *state == (AppState {
                last_internal_save_fingerprint: state.last_internal_save_fingerprint,
                ..*old(state)
            }),
            forall|k2: u64|
                k2 != buffer_id.0 ==> crate::store::lookup(
                    state.last_internal_save_fingerprint@,
                    k2,
                ) == crate::store::lookup(old(state).last_internal_save_fingerprint@, k2),
        ensures
            *state == (AppState {
                last_internal_save_fingerprint: state.last_internal_save_fingerprint,
                ..*old(state)
            }),
            crate::store::lookup(state.last_internal_save_fingerprint@, buffer_id.0) is None,
            forall|k2: u64|
                k2 != buffer_id.0 ==> crate::store::lookup(
                    state.last_internal_save_fingerprint@,
                    k2,
                ) == crate::store::lookup(old(state).last_internal_save_fingerprint@, k2),
        decreases state.last_internal_save_fingerprint@.len(),
    {
        match crate::store::find_idx(&state.last_internal_save_fingerprint, buffer_id.0) {
            Some(fi) => {
                let ghost pre = state.last_internal_save_fingerprint@;
                let _removed = state.last_internal_save_fingerprint.remove(fi);
                proof {
                    assert forall|k2: u64| k2 != buffer_id.0 implies crate::store::lookup(
                        pre.remove(fi as int),
                        k2,
                    ) == crate::store::lookup(pre, k2) by {
                        crate::store::lemma_lookup_remove_first(pre, fi as int, k2);
                    }
                }
            },
            None => {
                break ;
            },
        }
    }
}

/// Whether a just-read external content is this editor's own save coming
/// back: it is when the remembered fingerprint matches the content's; the
/// remembered fingerprint is consumed either way.
fn should_ignore_external_reload(state: &mut AppState, buffer_id: BufferId, text: &str) -> (r: bool)
    ensures
        r == (crate::store::lookup(old(state).last_internal_save_fingerprint@, buffer_id.0)
            == Some(fnv1a_of(text.spec_bytes()))),
        *final(state) == (AppState {
            last_internal_save_fingerprint: final(state).last_internal_save_fingerprint,
            ..*old(state)
        }),
        crate::store::lookup(final(state).last_internal_save_fingerprint@, buffer_id.0) is None
            || crate::store::lookup(old(state).last_internal_save_fingerprint@, buffer_id.0)
            is None,
        crate::store::lookup(old(state).last_internal_save_fingerprint@, buffer_id.0) is None
            ==> *final(state) == *old(state),
{
    let incoming = text_fingerprint(text);
    let expected = match crate::store::find_idx(&state.last_internal_save_fingerprint, buffer_id.0) {
        Some(i) => Some(state.last_internal_save_fingerprint[i].val),
        None => None,
    };
    let e = match expected {
        Some(e) => e,
        None => {
            return false;
        },
    };
    fingerprint_remove(state, buffer_id);
    e == incoming
}

} // verus!
