//! Shortcut actions, configuration reloads and key presses.

use crate::config::{Config, ConfigModel};
use crate::font::{is_valid_font_size, MAX_FONT_SIZE, MIN_FONT_SIZE};
use crate::grid::model::{capped_sum, least, GridModel};
use crate::grid::{Cursor, CursorShape, Grid};
use crate::input::encode::key_event;
use crate::input::{
    binding_models, triggered, ActionModel, Binding, KeyAction, KeyReading, KeyboardHandler,
};
use crate::text::{same_strings, texts};
use vstd::prelude::*;

verus! {

/// How many commands may read text from the terminal at once.
pub const MAX_CONCURRENT_PIPELINES: usize = 8;

/// A change of the font size.
#[derive(Debug, Clone, Copy, PartialEq, Eq, Structural)]
pub enum FontChange {
    Increase,
    Decrease,
    Reset,
}

/// What is handed to a command.
#[derive(Debug, Clone, Copy, PartialEq, Eq, Structural)]
pub enum PipeSource {
    Visible,
    Scrollback,
    Selection,
}

/// What a shortcut asks for beyond the grid.
#[derive(Debug)]
pub enum ActionRequest {
    /// A frame that shows the moved viewport.
    Redraw,
    Font(FontChange),
    Copy,
    Paste,
    Pipe(PipeSource, Vec<String>),
}

/// What a request holds.
#[verifier::ext_equal]
pub enum RequestModel {
    Redraw,
    Font(FontChange),
    Copy,
    Paste,
    Pipe(PipeSource, Seq<Seq<char>>),
}

impl View for ActionRequest {
    type V = RequestModel;

    open spec fn view(&self) -> RequestModel {
        match *self {
            ActionRequest::Redraw => RequestModel::Redraw,
            ActionRequest::Font(f) => RequestModel::Font(f),
            ActionRequest::Copy => RequestModel::Copy,
            ActionRequest::Paste => RequestModel::Paste,
            ActionRequest::Pipe(source, cmd) => RequestModel::Pipe(source, texts(cmd@)),
        }
    }
}

/// What a shortcut asks for beyond the grid.
pub open spec fn request_of(action: ActionModel) -> RequestModel {
    match action {
        ActionModel::FontIncrease => RequestModel::Font(FontChange::Increase),
        ActionModel::FontDecrease => RequestModel::Font(FontChange::Decrease),
        ActionModel::FontReset => RequestModel::Font(FontChange::Reset),
        ActionModel::ClipboardCopy => RequestModel::Copy,
        ActionModel::ClipboardPaste | ActionModel::PrimaryPaste => RequestModel::Paste,
        ActionModel::PipeVisible(cmd) => RequestModel::Pipe(PipeSource::Visible, cmd),
        ActionModel::PipeScrollback(cmd) => RequestModel::Pipe(PipeSource::Scrollback, cmd),
        ActionModel::PipeSelection(cmd) => RequestModel::Pipe(PipeSource::Selection, cmd),
        _ => RequestModel::Redraw,
    }
}

/// The offset of the viewport a number of rows higher, as far as the history goes.
pub open spec fn rows_up(g: GridModel, n: int) -> usize {
    least(capped_sum(g.viewport_offset as int, n) as int, g.scrollback.len() as int) as usize
}

/// The offset of the viewport a number of rows lower, as far as the screen.
pub open spec fn rows_down(g: GridModel, n: int) -> usize {
    if g.viewport_offset <= n {
        0
    } else {
        (g.viewport_offset - n) as usize
    }
}

/// The offset of the viewport after a shortcut on the primary screen.
pub open spec fn offset_after(g: GridModel, action: ActionModel) -> usize {
    let offset = g.viewport_offset;
    let top = g.scrollback.len() as int;
    match action {
        ActionModel::ScrollbackUpPage => rows_up(g, g.rows as int),
        ActionModel::ScrollbackUpLine => rows_up(g, 1),
        ActionModel::ScrollbackDownPage => rows_down(g, g.rows as int),
        ActionModel::ScrollbackDownLine => rows_down(g, 1),
        ActionModel::ScrollbackHome => top as usize,
        ActionModel::ScrollbackEnd => 0,
        ActionModel::PromptPrev => match g.prompt_above() {
            Some(m) => g.offset_of_mark(m),
            None => offset,
        },
        ActionModel::PromptNext => match g.prompt_below() {
            Some(m) => g.offset_of_mark(m),
            None => 0,
        },
        _ => offset,
    }
}

/// Executes a shortcut on the grid and returns what else it asks for. The alternate screen has no
/// history to move in; only the way to the end is open there.
pub fn handle_key_action(grid: &mut Grid, action: KeyAction) -> (r: ActionRequest)
    requires
        old(grid)@.viewport_offset <= old(grid)@.scrollback.len(),
        old(grid)@.total_evicted_rows + old(grid)@.scrollback.len() <= usize::MAX,
    ensures
        r@ == request_of(action@),
        final(grid)@ == (if old(grid)@.alt_lines is Some && action@ != ActionModel::ScrollbackEnd {
            old(grid)@
        } else {
            old(grid)@.viewing(offset_after(old(grid)@, action@))
        }),
{
    let page: usize = grid.rows;
    match action {
        KeyAction::ScrollbackUpPage => {
            grid.scroll_viewport_up(page);
            ActionRequest::Redraw
        },
        KeyAction::ScrollbackDownPage => {
            grid.scroll_viewport_down(page);
            ActionRequest::Redraw
        },
        KeyAction::ScrollbackUpLine => {
            grid.scroll_viewport_up(1);
            ActionRequest::Redraw
        },
        KeyAction::ScrollbackDownLine => {
            grid.scroll_viewport_down(1);
            ActionRequest::Redraw
        },
        KeyAction::ScrollbackHome => {
            grid.scroll_viewport_top();
            ActionRequest::Redraw
        },
        KeyAction::ScrollbackEnd => {
            grid.scroll_viewport_bottom();
            ActionRequest::Redraw
        },
        KeyAction::PromptPrev => {
            grid.scroll_to_prompt_prev();
            ActionRequest::Redraw
        },
        KeyAction::PromptNext => {
            grid.scroll_to_prompt_next();
            ActionRequest::Redraw
        },
        KeyAction::FontIncrease => ActionRequest::Font(FontChange::Increase),
        KeyAction::FontDecrease => ActionRequest::Font(FontChange::Decrease),
        KeyAction::FontReset => ActionRequest::Font(FontChange::Reset),
        KeyAction::ClipboardCopy => ActionRequest::Copy,
        KeyAction::ClipboardPaste | KeyAction::PrimaryPaste => ActionRequest::Paste,
        KeyAction::PipeVisible(cmd) => ActionRequest::Pipe(PipeSource::Visible, cmd),
        KeyAction::PipeScrollback(cmd) => ActionRequest::Pipe(PipeSource::Scrollback, cmd),
        KeyAction::PipeSelection(cmd) => ActionRequest::Pipe(PipeSource::Selection, cmd),
    }
}

/// Whether a command is started.
#[derive(Debug, Clone, Copy, PartialEq, Eq, Structural)]
pub enum PipeDecision {
    /// There is nothing to do.
    Ignore,
    /// Too many commands run already.
    Refuse,
    Spawn,
}

/// Decides whether a command is started: one without words is not, nor one of which too many run
/// already, nor one that would read an empty selection.
pub fn decide_pipe(source: PipeSource, cmd: &Vec<String>, text_empty: bool, active: usize) -> (r:
    PipeDecision)
    ensures
        r == (if (source == PipeSource::Selection && text_empty) || cmd@.len() == 0 {
            PipeDecision::Ignore
        } else if active >= MAX_CONCURRENT_PIPELINES {
            PipeDecision::Refuse
        } else {
            PipeDecision::Spawn
        }),
{
    if (source == PipeSource::Selection && text_empty) || cmd.len() == 0 {
        PipeDecision::Ignore
    } else if active >= MAX_CONCURRENT_PIPELINES {
        PipeDecision::Refuse
    } else {
        PipeDecision::Spawn
    }
}

/// What a configuration says on the size of the font.
pub open spec fn size_of(c: ConfigModel) -> u32 {
    match c.size {
        Some(size) => size,
        None => crate::config::DEFAULT_FONT_SIZE,
    }
}

/// What a configuration says on the length of the history.
pub open spec fn lines_of(c: ConfigModel) -> usize {
    match c.lines {
        Some(n) => n as usize,
        None => 1000,
    }
}

/// What a configuration says on the padding.
pub open spec fn padding_of(c: ConfigModel) -> (u16, u16) {
    match c.padding {
        Some(p) => (p.axes()@[0], p.axes()@[1]),
        None => (0, 0),
    }
}

/// What has to be done before a new configuration is applied.
#[derive(Debug, Clone, Copy, PartialEq, Eq, Structural)]
pub enum ReloadCheck {
    /// The new font size cannot be used: nothing is applied.
    InvalidSize,
    /// Other fonts are to be loaded; if that fails, nothing is applied.
    LoadFonts,
    Ready,
}

/// Checks a new configuration against the present one, before anything of it is applied.
pub fn check_reload(current: &Config, new: &Config, size_changed: bool) -> (r: ReloadCheck)
    ensures
        r == (if size_changed && !(MIN_FONT_SIZE <= size_of(new@) <= MAX_FONT_SIZE) {
            ReloadCheck::InvalidSize
        } else if current@.families() != new@.families() {
            ReloadCheck::LoadFonts
        } else {
            ReloadCheck::Ready
        }),
{
    if size_changed && !is_valid_font_size(new.font_size()) {
        return ReloadCheck::InvalidSize;
    }
    if same_strings(&current.font_families(), &new.font_families()) {
        ReloadCheck::Ready
    } else {
        ReloadCheck::LoadFonts
    }
}

/// What a new configuration changes of the font and the layout.
#[derive(Debug, Clone, Copy, PartialEq, Eq, Structural)]
pub enum FontUpdate {
    /// Other fonts, then a new layout.
    Replace,
    /// Another size.
    Rescale,
    /// The same font in another layout.
    Relayout,
    Nothing,
}

/// A grid whose history is at most so long: the oldest rows go.
pub open spec fn limited(g: GridModel, max: usize) -> GridModel {
    let overflow = g.scrollback.len() - max;
    GridModel {
        max_scrollback: max,
        scrollback: if overflow > 0 {
            g.scrollback.skip(overflow)
        } else {
            g.scrollback
        },
        viewport_offset: if overflow > 0 {
            least(g.viewport_offset as int, max as int) as usize
        } else {
            g.viewport_offset
        },
        ..g
    }
}

/// A history is never longer than its limit; the newest rows are the ones that stay, and the grid
/// stays well-formed.
pub proof fn law_the_newest_history_stays(g: GridModel, max: usize)
    requires
        g.wf(),
    ensures
        limited(g, max).wf(),
        limited(g, max).scrollback.len() == least(g.scrollback.len() as int, max as int),
        limited(g, max).scrollback == g.scrollback.skip(
            g.scrollback.len() - limited(g, max).scrollback.len(),
        ),
        limited(g, max).lines == g.lines,
{
    let l = limited(g, max);
    assert forall|i: int| 0 <= i < l.scrollback.len() implies (
    #[trigger] l.scrollback[i]).cells.len() == g.cols by {
        if g.scrollback.len() > max {
            assert(l.scrollback[i] == g.scrollback[i + (g.scrollback.len() - max)]);
        }
    }
    assert(l.scrollback =~= g.scrollback.skip(g.scrollback.len() - l.scrollback.len()));
}

/// Limits the history to a number of rows.
pub fn limit_scrollback(grid: &mut Grid, max: usize)
    ensures
        final(grid)@ == limited(old(grid)@, max),
        old(grid)@.wf() ==> final(grid)@.wf(),
{
    let ghost before = grid@;
    grid.max_scrollback = max;
    if grid.scrollback.len() > max {
        let total: usize = grid.scrollback.len();
        let ghost all = before.scrollback;
        assert(all.skip(0) =~= all);
        while grid.scrollback.len() > max
            invariant
                max <= grid@.scrollback.len() <= all.len(),
                grid@.scrollback.len() == grid.scrollback@.len(),
                grid@ == (GridModel {
                    max_scrollback: max,
                    scrollback: all.skip(all.len() - grid@.scrollback.len()),
                    ..before
                }),
            decreases grid@.scrollback.len(),
        {
            let ghost rows = grid@.scrollback;
            let ghost kept = grid@;
            let _ = grid.scrollback.pop_front();
            assert(grid@.scrollback =~= rows.skip(1));
            assert(rows.skip(1) =~= all.skip(all.len() - grid@.scrollback.len()));
            assert(grid@ =~= GridModel { scrollback: rows.skip(1), ..kept });
        }
        if grid.viewport_offset > max {
            grid.viewport_offset = max;
        }
    }
    assert(grid@ =~= limited(before, max));
    proof {
        if before.wf() {
            law_the_newest_history_stays(before, max);
        }
    }
}

/// Applies a checked configuration to the grid and tells what it changes of the font. `replaced`
/// says that other fonts were loaded.
pub fn apply_reload(
    grid: &mut Grid,
    current: &Config,
    new: &Config,
    size_changed: bool,
    replaced: bool,
) -> (r: FontUpdate)
    ensures
        final(grid)@ == ({
            let g = limited(old(grid)@, lines_of(new@));
            (GridModel { cursor: Cursor { shape: shape_of(new@), ..g.cursor }, ..g }).redrawn()
        }),
        r == (if replaced {
            FontUpdate::Replace
        } else if size_changed {
            FontUpdate::Rescale
        } else if padding_of(current@) != padding_of(new@) {
            FontUpdate::Relayout
        } else {
            FontUpdate::Nothing
        }),
{
    limit_scrollback(grid, new.scrollback_lines());
    let ghost g = grid@;
    grid.cursor.shape = new.cursor_shape();
    assert(grid@ =~= GridModel { cursor: Cursor { shape: shape_of(new@), ..g.cursor }, ..g });
    grid.mark_all_dirty();
    if replaced {
        FontUpdate::Replace
    } else if size_changed {
        FontUpdate::Rescale
    } else if current.padding_x() != new.padding_x() || current.padding_y() != new.padding_y() {
        FontUpdate::Relayout
    } else {
        FontUpdate::Nothing
    }
}

/// What a configuration says on the shape of the cursor.
pub open spec fn shape_of(c: ConfigModel) -> CursorShape {
    match c.shape {
        Some(shape) => shape,
        None => CursorShape::Block,
    }
}

/// What a key leads to.
#[derive(Debug)]
pub enum KeyOutcome {
    Action(KeyAction),
    Send(Vec<u8>),
    Nothing,
}

/// Handles a key: a pressed one may be a shortcut; another one is sent to the program, and a
/// pressed one brings the viewport back to the primary screen where that is wanted.
pub fn handle_key(
    grid: &mut Grid,
    keyboard: &KeyboardHandler,
    reading: Option<&KeyReading>,
    pressed: bool,
    bindings: &Vec<Binding>,
    auto_scroll: bool,
) -> (r: KeyOutcome)
    ensures
        ({
            let action = match reading {
                Some(key) if pressed => triggered(
                    key.symbol,
                    key.mods,
                    binding_models(bindings@),
                ),
                _ => None,
            };
            let bytes = match reading {
                Some(key) => key_event(keyboard.kitty_flags, *key, pressed, false),
                None => None,
            };
            match (action, bytes) {
                (Some(a), _) => (r matches KeyOutcome::Action(x) && x@ == a) && final(grid)@
                    == old(grid)@,
                (None, Some(b)) => (r matches KeyOutcome::Send(x) && x@ == b) && final(grid)@ == (
                if pressed && auto_scroll && old(grid)@.alt_lines is None {
                    old(grid)@.viewing(0)
                } else {
                    old(grid)@
                }),
                (None, None) => r is Nothing && final(grid)@ == old(grid)@,
            }
        }),
{
    if pressed {
        if let Some(action) = keyboard.check_action(reading, bindings) {
            return KeyOutcome::Action(action);
        }
    }
    match keyboard.handle_key_event(reading, pressed, false) {
        Some(bytes) => {
            if pressed && auto_scroll && !grid.is_alt_screen() {
                grid.scroll_viewport_bottom();
            }
            KeyOutcome::Send(bytes)
        },
        None => KeyOutcome::Nothing,
    }
}

/// What tells a program that it has gained or lost the focus.
pub fn focus_report(reporting: bool, gained: bool) -> (r: Vec<u8>)
    ensures
        r@ == (if !reporting {
            Seq::<u8>::empty()
        } else if gained {
            seq![0x1bu8, 0x5b, 0x49]
        } else {
            seq![0x1bu8, 0x5b, 0x4f]
        }),
{
    let mut out: Vec<u8> = Vec::new();
    if reporting {
        out.push(0x1b);
        out.push(0x5b);
        if gained {
            out.push(0x49);
        } else {
            out.push(0x4f);
        }
    }
    assert(out@ =~= (if !reporting {
        Seq::<u8>::empty()
    } else if gained {
        seq![0x1bu8, 0x5b, 0x49]
    } else {
        seq![0x1bu8, 0x5b, 0x4f]
    }));
    out
}

/// A sequence of bytes, repeated.
pub open spec fn repeated(s: Seq<u8>, n: nat) -> Seq<u8>
    decreases n,
{
    if n == 0 {
        Seq::empty()
    } else {
        repeated(s, (n - 1) as nat) + s
    }
}

/// Appends bytes a number of times.
pub fn push_repeated(out: &mut Vec<u8>, bytes: &Vec<u8>, n: usize)
    ensures
        final(out)@ == old(out)@ + repeated(bytes@, n as nat),
{
    let ghost before = out@;
    let mut i: usize = 0;
    assert(out@ =~= before + repeated(bytes@, 0));
    while i < n
        invariant
            i <= n,
            out@ == before + repeated(bytes@, i as nat),
        decreases n - i,
    {
        crate::kitty::command::push_bytes(out, bytes.as_slice());
        i += 1;
        assert(out@ =~= before + repeated(bytes@, i as nat));
    }
}

/// What an input method sends to the program: it takes back characters before the cursor and
/// behind it, and then types text.
pub fn ime_bytes(delete_before: u32, delete_after: u32, commit: Option<&str>) -> (r: Vec<u8>)
    ensures
        r@ == repeated(seq![0x08u8], delete_before as nat) + repeated(
            seq![0x1bu8, 0x5b, 0x33, 0x7e],
            delete_after as nat,
        ) + (match commit {
            Some(text) => vstd::utf8::encode_utf8(text@),
            None => Seq::empty(),
        }),
{
    let mut out: Vec<u8> = Vec::new();
    let back: Vec<u8> = vec![0x08];
    let delete: Vec<u8> = vec![0x1b, 0x5b, 0x33, 0x7e];
    assert(back@ =~= seq![0x08u8]);
    assert(delete@ =~= seq![0x1bu8, 0x5b, 0x33, 0x7e]);
    push_repeated(&mut out, &back, delete_before as usize);
    push_repeated(&mut out, &delete, delete_after as usize);
    if let Some(text) = commit {
        crate::kitty::command::push_bytes(&mut out, text.as_bytes());
    }
    out
}

} // verus!
