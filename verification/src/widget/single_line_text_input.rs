use vstd::prelude::*;

use compact_str::CompactString;

use crate::util::calls::{
    calls_made, lemma_calls_made_after, lemma_calls_made_error, lemma_ok_is_unit, run_functionality,
    succeeded,
};
use crate::util::compact::{compact_chars, compact_clear, compact_is_empty, compact_pop, compact_push_str};
use crate::util::focus::{widget_focus_spec, FocusID, FocusManager};
use crate::util::geometry::{ClippingRect, Point, Rect};
use crate::util::render::{
    bracket_outline, caret_points, caret_spec, corner_bracket_spec, size_fits, BRACKET_REACH,
};
use crate::widget::{ctrl_held, is_ctrl_held, ConsumedStatus, Event, Keycode, SDLEvent};

verus! {

pub trait SingleLineTextEditState {
    /// produce a string from whatever data is being viewed
    fn get(&self) -> CompactString;

    /// used to provide internal mutability on the contained data. could be used
    /// to append, etc
    fn set(&self, new: CompactString);
}

#[derive(Debug, Clone, Copy, PartialEq, Eq, Structural)]
pub enum SingleLineTextInputSoundVariant {
    Focus,
    TextAdded,
    TextRemoved,
    Enter,
}

pub trait SingleLineTextInputSoundStyle {
    fn play_sound(&mut self, which: SingleLineTextInputSoundVariant) -> Result<(), String>;
}

/// a style which does not play any sounds
#[derive(Debug, Clone, Copy)]
pub struct EmptySingleLineTextInputSoundStyle {}

impl SingleLineTextInputSoundStyle for EmptySingleLineTextInputSoundStyle {
    fn play_sound(&mut self, which: SingleLineTextInputSoundVariant) -> (r: Result<(), String>)
        ensures
            r is Ok,
    {
        // nothing
        Ok(())
    }
}


/// the color of the outline of a text input, as red, green, blue
pub open spec fn text_input_outline_color_spec(focused: bool) -> (u8, u8, u8) {
    if focused {
        (118u8, 73u8, 206u8)
    } else {
        (50u8, 50u8, 50u8)
    }
}

/// Law: the outline of a text input shows its focus: purple (118, 73, 206)
/// exactly when focused, dim (50, 50, 50) otherwise.
pub proof fn lemma_text_input_outline_shows_focus(focused: bool)
    ensures
        text_input_outline_color_spec(focused) == (118u8, 73u8, 206u8) <==> focused,
        !focused ==> text_input_outline_color_spec(focused) == (50u8, 50u8, 50u8),
{
}

pub fn text_input_outline_color(focused: bool) -> (r: (u8, u8, u8))
    ensures
        r == text_input_outline_color_spec(focused),
{
    if focused {
        (118, 73, 206)
    } else {
        (50, 50, 50)
    }
}

/// a default provided single line text edit style
#[derive(Debug, Clone, Copy, PartialEq, Eq, Structural)]
pub struct DefaultSingleLineEditStyle {}

impl Default for DefaultSingleLineEditStyle {
    fn default() -> (r: Self)
        ensures
            r == (DefaultSingleLineEditStyle {}),
    {
        DefaultSingleLineEditStyle {}
    }
}

/// What the default text input look draws on its texture, under the text.
#[derive(Debug, Clone, Copy)]
pub struct TextInputDrawing {
    /// the color of the corner brackets and of the caret
    pub color: (u8, u8, u8),
    pub brackets: [[Point; 3]; 4],
    pub caret: [Point; 2],
}

impl DefaultSingleLineEditStyle {
    /// What the default look draws on a texture of `size`, with the caret at
    /// `caret_position`: nothing when the corner brackets do not fit, else the
    /// brackets and then the caret, in the outline color.
    pub fn drawing(&self, focused: bool, size: (u32, u32), caret_position: i32) -> (r: Option<
        TextInputDrawing,
    >)
        requires
            size_fits(size),
        ensures
            r is None <==> (size.0 <= BRACKET_REACH || size.1 <= BRACKET_REACH),
            r matches Some(d) ==> {
                &&& d.color == text_input_outline_color_spec(focused)
                &&& d.brackets@ == corner_bracket_spec(BRACKET_REACH, size)
                &&& d.caret@ == caret_spec(caret_position, BRACKET_REACH, size)
            },
    {
        let brackets = match bracket_outline(size) {
            Some(b) => b,
            None => return None,  // too small to draw properly
        };
        Some(
            TextInputDrawing {
                color: text_input_outline_color(focused),
                brackets,
                caret: caret_points(caret_position, BRACKET_REACH, size),
            },
        )
    }
}

/// too frequent sounds are bad: the least time, in milliseconds, between two
/// typing sounds
pub const SOUND_LIMITER: u32 = 50u32;

/// enough time has passed since the previous typing sound at `previous` for a
/// typing sound at `timestamp`. a timestamp before the previous one counts as
/// enough time.
pub open spec fn sound_allowed(timestamp: u32, previous: u32) -> bool {
    timestamp < previous || timestamp - previous >= SOUND_LIMITER
}

/// Law: typing sounds are at least 50 milliseconds apart: a typing sound is
/// allowed at `timestamp` after one at `previous` exactly when 50 milliseconds
/// or more have passed, or the clock reads earlier than the previous sound.
pub proof fn lemma_typing_sounds_spaced(timestamp: u32, previous: u32)
    ensures
        sound_allowed(timestamp, previous) <==> (timestamp < previous || timestamp >= previous + 50),
{
}

pub fn typing_sound_allowed(timestamp: u32, previous: u32) -> (r: bool)
    ensures
        r == sound_allowed(timestamp, previous),
{
    match timestamp.checked_sub(previous) {
        Some(v) => v >= SOUND_LIMITER,
        None => true,
    }
}

/// backspace removes the last character, or everything when `whole` (control
/// held)
pub open spec fn erase_spec(content: Seq<char>, whole: bool) -> Seq<char> {
    if whole {
        Seq::empty()
    } else if content.len() == 0 {
        content
    } else {
        content.drop_last()
    }
}

pub fn erase_text(content: &mut CompactString, whole: bool)
    ensures
        compact_chars(*final(content)) == erase_spec(compact_chars(*old(content)), whole),
{
    if whole {
        compact_clear(content);
    } else {
        compact_pop(content);
    }
}

/// A call that a text input makes on the outside: a sound, its
/// functionality, a read of its text with what it gave, or a write of its text
/// with what was written.
pub enum TextCall {
    Sound(SingleLineTextInputSoundVariant),
    Run,
    Read(Seq<char>),
    Write(Seq<char>),
}

/// What a text input calls on the outside, its text, its sounds and its
/// functionality, with the record of the calls made through it.
pub struct TextEffects<'a, E: ?Sized, S: ?Sized, F: ?Sized> {
    text: &'a E,
    sounds: &'a mut S,
    functionality: &'a mut F,
    made: Ghost<Seq<(TextCall, Result<(), String>)>>,
}

impl<
    'a,
    E: SingleLineTextEditState + ?Sized,
    S: SingleLineTextInputSoundStyle + ?Sized,
    F: FnMut() -> Result<(), String> + ?Sized,
> TextEffects<'a, E, S, F> {
    /// the calls made so far, in order, each with what it returned
    pub closed spec fn made(&self) -> Seq<(TextCall, Result<(), String>)> {
        self.made@
    }

    pub fn new(text: &'a E, sounds: &'a mut S, functionality: &'a mut F) -> (r: Self)
        ensures
            r.made() == Seq::<(TextCall, Result<(), String>)>::empty(),
    {
        TextEffects { text, sounds, functionality, made: Ghost(Seq::empty()) }
    }

    fn sound(&mut self, which: SingleLineTextInputSoundVariant) -> (r: Result<(), String>)
        ensures
            final(self).made() == old(self).made().push((TextCall::Sound(which), r)),
    {
        let r = self.sounds.play_sound(which);
        self.made = Ghost(self.made@.push((TextCall::Sound(which), r)));
        r
    }

    fn run(&mut self) -> (r: Result<(), String>)
        ensures
            final(self).made() == old(self).made().push((TextCall::Run, r)),
    {
        let r = run_functionality(self.functionality);
        self.made = Ghost(self.made@.push((TextCall::Run, r)));
        r
    }

    fn get(&mut self) -> (r: CompactString)
        ensures
            final(self).made() == old(self).made().push((TextCall::Read(compact_chars(r)), Ok::<(), String>(()))),
    {
        let r = self.text.get();
        self.made = Ghost(self.made@.push((TextCall::Read(compact_chars(r)), Ok::<(), String>(()))));
        r
    }

    fn set(&mut self, new: CompactString)
        ensures
            final(self).made() == old(self).made().push((TextCall::Write(compact_chars(new)), Ok::<(), String>(()))),
    {
        let ghost chars = compact_chars(new);
        self.text.set(new);
        self.made = Ghost(self.made@.push((TextCall::Write(chars), Ok::<(), String>(()))));
    }
}

/// What the last read of the text among the calls `made` gave; nothing if
/// there was none.
pub open spec fn text_read(made: Seq<(TextCall, Result<(), String>)>) -> Seq<char>
    decreases made.len(),
{
    if made.len() == 0 {
        Seq::empty()
    } else {
        match made.last().0 {
            TextCall::Read(c) => c,
            _ => text_read(made.drop_last()),
        }
    }
}

/// What a text input knows while it goes through the events of a frame.
pub struct TextInputModel {
    /// the input has had the focus at some point of the frame
    pub previously_focused: bool,
    /// the focused widget
    pub focus: Option<Seq<char>>,
    /// the time of the previous typing sound
    pub previous: u32,
}

/// The calls that a focused text input makes for the key event `e` that the
/// default focus behavior left, when each succeeds, with `content` the text as
/// it reads it and `previous` the time of the previous typing sound.
///
/// - releasing enter (not repeated) plays the enter sound, then runs the
///   functionality
/// - backspace reads the text, plays the removal sound if the text is not
///   empty and `SOUND_LIMITER` has passed, then writes the text with its last
///   character erased (all of it while control is held)
/// - typed text plays the typing sound if `SOUND_LIMITER` has passed, then
///   reads the text and writes it with the typed text appended
pub open spec fn text_key_plan(previous: u32, e: Event, content: Seq<char>) -> Seq<TextCall> {
    match e {
        Event::KeyUp { repeat, keycode: Some(Keycode::Return), .. } => if repeat {
            seq![]
        } else {
            seq![TextCall::Sound(SingleLineTextInputSoundVariant::Enter), TextCall::Run]
        },
        Event::KeyDown { timestamp, keycode: Some(Keycode::Backspace), keymod, .. } => seq![
            TextCall::Read(content),
        ] + (if content.len() > 0 && sound_allowed(timestamp, previous) {
            seq![TextCall::Sound(SingleLineTextInputSoundVariant::TextRemoved)]
        } else {
            seq![]
        }) + seq![TextCall::Write(erase_spec(content, ctrl_held(keymod)))],
        Event::TextInput { timestamp, text, .. } => (if sound_allowed(timestamp, previous) {
            seq![TextCall::Sound(SingleLineTextInputSoundVariant::TextAdded)]
        } else {
            seq![]
        }) + seq![TextCall::Read(content), TextCall::Write(content + text@)],
        _ => seq![],
    }
}

/// The time of the previous typing sound and the event's status after a
/// focused text input made the calls `made` for the key event `ev`: the key
/// events it uses are consumed, and a typing sound that was tried counts as
/// played.
pub open spec fn text_key_result(previous: u32, ev: SDLEvent, made: Seq<(TextCall, Result<(), String>)>) -> (
    u32,
    ConsumedStatus,
) {
    match ev.ev() {
        Event::KeyUp { keycode: Some(Keycode::Return), .. } => (
            previous,
            ConsumedStatus::ConsumedByWidget,
        ),
        Event::KeyDown { timestamp, keycode: Some(Keycode::Backspace), .. } => (
            if text_read(made).len() > 0 && sound_allowed(timestamp, previous) {
                timestamp
            } else {
                previous
            },
            ConsumedStatus::ConsumedByWidget,
        ),
        Event::TextInput { timestamp, .. } => (
            if sound_allowed(timestamp, previous) {
                timestamp
            } else {
                previous
            },
            ConsumedStatus::ConsumedByWidget,
        ),
        _ => (previous, ev.status()),
    }
}

/// The calls that a text input with identity `id` makes for the event `ev`
/// from the state `st`, when each succeeds, with `content` the text as it
/// reads it: nothing for an event that is not available or after which it is
/// not focused; else the focus sound if it had not had the focus yet, then,
/// if the default focus behavior did not consume the event, those of
/// `text_key_plan`.
pub open spec fn text_input_plan(
    id: (Seq<char>, Seq<char>, Seq<char>),
    st: TextInputModel,
    position: Option<Rect>,
    clipping_rect: ClippingRect,
    window_id: u32,
    ev: SDLEvent,
    content: Seq<char>,
) -> Seq<TextCall> {
    let (focus, consumed) = widget_focus_spec(id, st.focus, position, clipping_rect, window_id, ev.ev());
    let focus_sound = if st.previously_focused {
        seq![]
    } else {
        seq![TextCall::Sound(SingleLineTextInputSoundVariant::Focus)]
    };
    if !ev.is_available() || focus != Some(id.1) {
        seq![]
    } else if consumed {
        focus_sound
    } else {
        focus_sound + text_key_plan(st.previous, ev.ev(), content)
    }
}

/// The effect of the event `ev` on a text input with identity `id` in the
/// state `st`, after the calls `made` for it: the new state and the event's
/// status.
///
/// - the default focus behavior comes first
/// - keys only apply while the input is focused, and are consumed once used
/// - when the focus sound fails, the event is left to the default focus
///   behavior
pub open spec fn text_input_result(
    id: (Seq<char>, Seq<char>, Seq<char>),
    st: TextInputModel,
    position: Option<Rect>,
    clipping_rect: ClippingRect,
    window_id: u32,
    ev: SDLEvent,
    made: Seq<(TextCall, Result<(), String>)>,
) -> (TextInputModel, ConsumedStatus) {
    let (focus, consumed) = widget_focus_spec(id, st.focus, position, clipping_rect, window_id, ev.ev());
    let status = if consumed { ConsumedStatus::ConsumedByWidget } else { ev.status() };
    let st1 = TextInputModel { focus, previously_focused: true, ..st };
    if !ev.is_available() {
        (st, ev.status())
    } else if focus != Some(id.1) {
        (TextInputModel { focus, ..st }, status)
    } else if consumed || (!st.previously_focused && made.len() > 0 && made[0].1 is Err) {
        (st1, status)
    } else {
        let (previous, key_status) = text_key_result(st.previous, ev, made);
        (TextInputModel { previous, ..st1 }, key_status)
    }
}

/// The state after the events `evs`, from the state `st`, with `blocks` the
/// calls made for each of them.
pub open spec fn text_input_fold(
    id: (Seq<char>, Seq<char>, Seq<char>),
    st: TextInputModel,
    position: Option<Rect>,
    clipping_rect: ClippingRect,
    window_id: u32,
    evs: Seq<SDLEvent>,
    blocks: Seq<Seq<(TextCall, Result<(), String>)>>,
) -> TextInputModel
    decreases evs.len(),
{
    if evs.len() == 0 {
        st
    } else {
        text_input_result(
            id,
            text_input_fold(id, st, position, clipping_rect, window_id, evs.drop_last(), blocks.drop_last()),
            position,
            clipping_rect,
            window_id,
            evs.last(),
            blocks.last(),
        ).0
    }
}

/// The first events of `before` became those of `after`, with the calls
/// `blocks` made for them, from the state `st0`: each event's calls follow
/// `text_input_plan` with the text they read, all succeeding but, when not
/// `ok`, the last call made, and its status is that of `text_input_result`;
/// the later events are untouched.
#[verifier::opaque]
pub open spec fn text_input_handled(
    id: (Seq<char>, Seq<char>, Seq<char>),
    st0: TextInputModel,
    position: Option<Rect>,
    clipping_rect: ClippingRect,
    window_id: u32,
    before: Seq<SDLEvent>,
    after: Seq<SDLEvent>,
    blocks: Seq<Seq<(TextCall, Result<(), String>)>>,
    r: Result<(), String>,
) -> bool {
    let p = blocks.len();
    &&& p <= before.len()
    &&& after.len() == before.len()
    &&& forall|k: int|
        0 <= k < p ==> calls_made(
            #[trigger] blocks[k],
            text_input_plan(
                id,
                text_input_fold(id, st0, position, clipping_rect, window_id, before.take(k), blocks.take(k)),
                position,
                clipping_rect,
                window_id,
                before[k],
                text_read(blocks[k]),
            ),
            if k < p - 1 { Ok::<(), String>(()) } else { r },
        )
    &&& forall|k: int|
        0 <= k < p ==> (#[trigger] after[k]).status() == text_input_result(
            id,
            text_input_fold(id, st0, position, clipping_rect, window_id, before.take(k), blocks.take(k)),
            position,
            clipping_rect,
            window_id,
            before[k],
            blocks[k],
        ).1
    &&& forall|k: int| p <= k < before.len() ==> #[trigger] after[k] == before[k]
}

/// The events `before` became `after`, with the calls `made` in the blocks
/// `blocks` made for the first of them, from the state `st0`, ending in a
/// state with the focus `focus` and the previous typing sound at `previous`:
/// with `ok`, every event was handled; without it, handling stopped at the
/// last event that made calls.
pub open spec fn text_input_ran(
    id: (Seq<char>, Seq<char>, Seq<char>),
    st0: TextInputModel,
    position: Option<Rect>,
    clipping_rect: ClippingRect,
    window_id: u32,
    before: Seq<SDLEvent>,
    after: Seq<SDLEvent>,
    blocks: Seq<Seq<(TextCall, Result<(), String>)>>,
    made: Seq<(TextCall, Result<(), String>)>,
    r: Result<(), String>,
    focus: Option<Seq<char>>,
    previous: u32,
) -> bool {
    let p = blocks.len();
    let st = text_input_fold(id, st0, position, clipping_rect, window_id, before.take(p as int), blocks);
    &&& text_input_handled(id, st0, position, clipping_rect, window_id, before, after, blocks, r)
    &&& made == blocks.flatten_alt()
    &&& r is Ok ==> p == before.len()
    &&& r is Err ==> p >= 1
    &&& focus == st.focus
    &&& previous == st.previous
}

/// Handling one more event, with the calls `b`.
proof fn lemma_text_input_handled_push(
    id: (Seq<char>, Seq<char>, Seq<char>),
    st0: TextInputModel,
    position: Option<Rect>,
    clipping_rect: ClippingRect,
    window_id: u32,
    before: Seq<SDLEvent>,
    after0: Seq<SDLEvent>,
    after1: Seq<SDLEvent>,
    blocks: Seq<Seq<(TextCall, Result<(), String>)>>,
    b: Seq<(TextCall, Result<(), String>)>,
    r: Result<(), String>,
)
    requires
        text_input_handled(id, st0, position, clipping_rect, window_id, before, after0, blocks, Ok::<(), String>(())),
        blocks.len() < before.len(),
        calls_made(
            b,
            text_input_plan(
                id,
                text_input_fold(id, st0, position, clipping_rect, window_id, before.take(blocks.len() as int), blocks),
                position,
                clipping_rect,
                window_id,
                before[blocks.len() as int],
                text_read(b),
            ),
            r,
        ),
        after1.len() == before.len(),
        after1[blocks.len() as int].status() == text_input_result(
            id,
            text_input_fold(id, st0, position, clipping_rect, window_id, before.take(blocks.len() as int), blocks),
            position,
            clipping_rect,
            window_id,
            before[blocks.len() as int],
            b,
        ).1,
        forall|k: int| 0 <= k < before.len() && k != blocks.len() ==> after1[k] == after0[k],
    ensures
        text_input_handled(id, st0, position, clipping_rect, window_id, before, after1, blocks.push(b), r),
        text_input_fold(id, st0, position, clipping_rect, window_id, before.take(blocks.len() as int + 1), blocks.push(b))
            == text_input_result(
            id,
            text_input_fold(id, st0, position, clipping_rect, window_id, before.take(blocks.len() as int), blocks),
            position,
            clipping_rect,
            window_id,
            before[blocks.len() as int],
            b,
        ).0,
        blocks.push(b).flatten_alt() == blocks.flatten_alt() + b,
{
    reveal(text_input_handled);
    let i = blocks.len() as int;
    let nb = blocks.push(b);
    assert(nb.drop_last() == blocks);
    assert(before.take(i + 1).drop_last() == before.take(i));
    assert(nb.take(i) == blocks);
    assert(blocks.take(i) == blocks);
    assert forall|k: int| 0 <= k < i implies #[trigger] nb.take(k) == blocks.take(k) by {}
    assert forall|k: int| 0 <= k < nb.len() implies calls_made(
        #[trigger] nb[k],
        text_input_plan(
            id,
            text_input_fold(id, st0, position, clipping_rect, window_id, before.take(k), nb.take(k)),
            position,
            clipping_rect,
            window_id,
            before[k],
            text_read(nb[k]),
        ),
        if k < nb.len() - 1 { Ok::<(), String>(()) } else { r },
    ) by {
        if k < i {
            assert(nb.take(k) == blocks.take(k));
            assert(nb[k] == blocks[k]);
        }
    }
    assert forall|k: int| 0 <= k < nb.len() implies (#[trigger] after1[k]).status() == text_input_result(
        id,
        text_input_fold(id, st0, position, clipping_rect, window_id, before.take(k), nb.take(k)),
        position,
        clipping_rect,
        window_id,
        before[k],
        nb[k],
    ).1 by {
        if k < i {
            assert(nb.take(k) == blocks.take(k));
            assert(nb[k] == blocks[k]);
            assert(after1[k] == after0[k]);
        }
    }
    assert forall|k: int| nb.len() <= k < before.len() implies #[trigger] after1[k] == before[k] by {
        assert(after1[k] == after0[k]);
    }
}

/// Law: a text input only uses keys while it is focused. When the default
/// focus behavior leaves another widget focused (or none), the input calls
/// nothing, and the event is consumed exactly when that behavior consumes it.
pub proof fn lemma_text_input_needs_focus(
    id: (Seq<char>, Seq<char>, Seq<char>),
    st: TextInputModel,
    position: Option<Rect>,
    clipping_rect: ClippingRect,
    window_id: u32,
    ev: SDLEvent,
    content: Seq<char>,
    made: Seq<(TextCall, Result<(), String>)>,
)
    requires
        ev.is_available(),
        widget_focus_spec(id, st.focus, position, clipping_rect, window_id, ev.ev()).0 != Some(id.1),
    ensures
        text_input_plan(id, st, position, clipping_rect, window_id, ev, content) == Seq::<
            TextCall,
        >::empty(),
        text_input_result(id, st, position, clipping_rect, window_id, ev, made).1
            == if widget_focus_spec(id, st.focus, position, clipping_rect, window_id, ev.ev()).1 {
            ConsumedStatus::ConsumedByWidget
        } else {
            ConsumedStatus::NotConsumed
        },
{
}

/// Law: typed text reaches only the focused text input, which consumes it and
/// writes back the text it read with the typed text appended, after the
/// typing sound when `SOUND_LIMITER` has passed since the previous one.
pub proof fn lemma_focused_input_appends_text(
    id: (Seq<char>, Seq<char>, Seq<char>),
    st: TextInputModel,
    position: Option<Rect>,
    clipping_rect: ClippingRect,
    window_id: u32,
    ev: SDLEvent,
    content: Seq<char>,
    timestamp: u32,
    w: u32,
    typed: String,
    made: Seq<(TextCall, Result<(), String>)>,
)
    requires
        ev.is_available(),
        ev.ev() == (Event::TextInput { timestamp, window_id: w, text: typed }),
        st.focus == Some(id.1),
        st.previously_focused,
    ensures
        text_input_plan(id, st, position, clipping_rect, window_id, ev, content) == (if sound_allowed(
            timestamp,
            st.previous,
        ) {
            seq![TextCall::Sound(SingleLineTextInputSoundVariant::TextAdded)]
        } else {
            seq![]
        }) + seq![TextCall::Read(content), TextCall::Write(content + typed@)],
        text_input_result(id, st, position, clipping_rect, window_id, ev, made).1
            == ConsumedStatus::ConsumedByWidget,
{
    assert(Seq::<TextCall>::empty() + text_key_plan(st.previous, ev.ev(), content) == text_key_plan(
        st.previous,
        ev.ev(),
        content,
    ));
}

/// Law: backspace on the focused text input writes back the text it read
/// with the last character removed, or empty while control is held, and
/// plays the removal sound only when there was text and `SOUND_LIMITER` has
/// passed since the previous typing sound.
pub proof fn lemma_focused_input_backspace(
    id: (Seq<char>, Seq<char>, Seq<char>),
    st: TextInputModel,
    position: Option<Rect>,
    clipping_rect: ClippingRect,
    window_id: u32,
    ev: SDLEvent,
    content: Seq<char>,
    timestamp: u32,
    w: u32,
    keymod: u16,
    repeat: bool,
)
    requires
        ev.is_available(),
        ev.ev() == (Event::KeyDown {
            timestamp,
            window_id: w,
            keycode: Some(Keycode::Backspace),
            keymod,
            repeat,
        }),
        st.focus == Some(id.1),
        st.previously_focused,
    ensures
        text_input_plan(id, st, position, clipping_rect, window_id, ev, content) == seq![
            TextCall::Read(content),
        ] + (if content.len() > 0 && sound_allowed(timestamp, st.previous) {
            seq![TextCall::Sound(SingleLineTextInputSoundVariant::TextRemoved)]
        } else {
            seq![]
        }) + seq![
            TextCall::Write(
                if ctrl_held(keymod) {
                    Seq::empty()
                } else if content.len() == 0 {
                    content
                } else {
                    content.drop_last()
                },
            ),
        ],
{
    assert(Seq::<TextCall>::empty() + text_key_plan(st.previous, ev.ev(), content) == text_key_plan(
        st.previous,
        ev.ev(),
        content,
    ));
}

/// Law: releasing enter (not repeated) on the focused text input plays the
/// enter sound and then runs the functionality once.
pub proof fn lemma_focused_input_enter(
    id: (Seq<char>, Seq<char>, Seq<char>),
    st: TextInputModel,
    position: Option<Rect>,
    clipping_rect: ClippingRect,
    window_id: u32,
    ev: SDLEvent,
    content: Seq<char>,
    timestamp: u32,
    w: u32,
    keymod: u16,
)
    requires
        ev.is_available(),
        ev.ev() == (Event::KeyUp {
            timestamp,
            window_id: w,
            keycode: Some(Keycode::Return),
            keymod,
            repeat: false,
        }),
        st.focus == Some(id.1),
        st.previously_focused,
    ensures
        text_input_plan(id, st, position, clipping_rect, window_id, ev, content) == seq![
            TextCall::Sound(SingleLineTextInputSoundVariant::Enter),
            TextCall::Run,
        ],
{
    assert(Seq::<TextCall>::empty() + text_key_plan(st.previous, ev.ev(), content) == text_key_plan(
        st.previous,
        ev.ev(),
        content,
    ));
}

/// Law: an event that another widget consumed already is left alone, and
/// the text input only consumes events that are still available, as a
/// widget.
pub proof fn lemma_text_input_consumes_only_available(
    id: (Seq<char>, Seq<char>, Seq<char>),
    st: TextInputModel,
    position: Option<Rect>,
    clipping_rect: ClippingRect,
    window_id: u32,
    ev: SDLEvent,
    made: Seq<(TextCall, Result<(), String>)>,
)
    ensures
        !ev.is_available() ==> text_input_result(id, st, position, clipping_rect, window_id, ev, made)
            == (st, ev.status()),
        ({
            let status = text_input_result(id, st, position, clipping_rect, window_id, ev, made).1;
            status == ev.status() || (ev.is_available() && status == ConsumedStatus::ConsumedByWidget)
        }),
{
}

/// What a text input sees of an event, copied out of it.
enum TextEventKind {
    EnterUp { repeat: bool },
    Backspace { timestamp: u32, ctrl: bool },
    Text { timestamp: u32 },
    Other,
}

fn text_event_kind(e: &Event) -> (r: TextEventKind)
    ensures
        match *e {
            Event::KeyUp { repeat, keycode: Some(Keycode::Return), .. } => r == (
            TextEventKind::EnterUp { repeat }),
            Event::KeyDown { timestamp, keycode: Some(Keycode::Backspace), keymod, .. } => r == (
            TextEventKind::Backspace { timestamp, ctrl: ctrl_held(keymod) }),
            Event::TextInput { timestamp, .. } => r == (TextEventKind::Text { timestamp }),
            _ => r == TextEventKind::Other,
        },
{
    match e {
        Event::KeyUp { repeat, keycode: Some(Keycode::Return), .. } => TextEventKind::EnterUp {
            repeat: *repeat,
        },
        Event::KeyDown { timestamp, keycode: Some(Keycode::Backspace), keymod, .. } => {
            TextEventKind::Backspace { timestamp: *timestamp, ctrl: is_ctrl_held(*keymod) }
        },
        Event::TextInput { timestamp, .. } => TextEventKind::Text { timestamp: *timestamp },
        _ => TextEventKind::Other,
    }
}

fn typed_text(e: &Event) -> (r: &str)
    ensures
        e matches Event::TextInput { text, .. } ==> r@ == text@,
{
    match e {
        Event::TextInput { text, .. } => text.as_str(),
        _ => "",
    }
}



/// With no read of the text among `a`, the last read among `a + e` is that
/// among `e`.
proof fn lemma_text_read_after(a: Seq<(TextCall, Result<(), String>)>, e: Seq<(TextCall, Result<(), String>)>)
    requires
        forall|k: int| 0 <= k < a.len() ==> !(#[trigger] a[k].0 is Read),
    ensures
        text_read(a + e) == text_read(e),
    decreases a.len() + e.len(),
{
    if e.len() == 0 {
        assert(a + e == a);
        if a.len() > 0 {
            lemma_text_read_after(a.drop_last(), e);
            assert(a.drop_last() + e == a.drop_last());
        }
    } else {
        assert((a + e).drop_last() == a + e.drop_last());
        lemma_text_read_after(a, e.drop_last());
    }
}

/// One more call `c` with the outcome `ok` recorded after the calls
/// `before`, of which those from `n` on are the current block.
proof fn lemma_text_block_push(
    before: Seq<(TextCall, Result<(), String>)>,
    after: Seq<(TextCall, Result<(), String>)>,
    n: int,
    c: TextCall,
    o: Result<(), String>,
)
    requires
        0 <= n <= before.len(),
        after == before.push((c, o)),
    ensures
        after.len() >= n,
        after.take(n) == before.take(n),
        after.skip(n) == before.skip(n).push((c, o)),
        text_read(after.skip(n)) == match c {
            TextCall::Read(t) => t,
            _ => text_read(before.skip(n)),
        },
{
    assert(after.take(n) == before.take(n));
    assert(after.skip(n) == before.skip(n).push((c, o)));
    assert(after.skip(n).drop_last() == before.skip(n));
}

/// The reaction of a focused text input to a key event that the default
/// focus behavior left.
fn text_input_key<
    E: SingleLineTextEditState + ?Sized,
    S: SingleLineTextInputSoundStyle + ?Sized,
    F: FnMut() -> Result<(), String> + ?Sized,
>(
    previous_text_input_timestamp: &mut u32,
    event: &mut SDLEvent,
    effects: &mut TextEffects<E, S, F>,
) -> (r: Result<(), String>)
    requires
        old(event).is_available(),
    ensures
        final(event).ev() == old(event).ev(),
        ({
            let n = old(effects).made().len();
            let made = final(effects).made().skip(n as int);
            &&& final(effects).made().len() >= n
            &&& final(effects).made().take(n as int) == old(effects).made()
            &&& calls_made(
                made,
                text_key_plan(*old(previous_text_input_timestamp), old(event).ev(), text_read(made)),
                r,
            )
            &&& (*final(previous_text_input_timestamp), final(event).status()) == text_key_result(
                *old(previous_text_input_timestamp),
                *old(event),
                made,
            )
        }),
{
    let ghost all0 = effects.made();
    let ghost n = all0.len() as int;
    let ghost previous = *previous_text_input_timestamp;
    assert(all0.take(n) == all0);
    assert(all0.skip(n) == Seq::<(TextCall, Result<(), String>)>::empty());
    assert(succeeded(Seq::<TextCall>::empty()) == Seq::<(TextCall, Result<(), String>)>::empty());
    let kind = text_event_kind(event.event());
    match kind {
        // if enter key is released and this widget has focus then trigger the
        // functionality
        TextEventKind::EnterUp { repeat } => {
            // still consume the event first even if using it results in an
            // error
            event.set_consumed();
            if repeat {
                return Ok(());
            }
            let ghost plan = seq![TextCall::Sound(SingleLineTextInputSoundVariant::Enter), TextCall::Run];
            // generally, try to play the sound before the functionality happens
            let ghost all1 = effects.made();
            let r = effects.sound(SingleLineTextInputSoundVariant::Enter);
            proof {
                lemma_text_block_push(all1, effects.made(), n, plan[0], r);
            }
            if r.is_err() {
                assert(plan.take(0) == Seq::<TextCall>::empty());
                assert(effects.made().skip(n).drop_last() == Seq::<(TextCall, Result<(), String>)>::empty());
                return r;
            }
            let ghost all2 = effects.made();
            let ghost r0 = r;
            proof {
                lemma_ok_is_unit(r0);
            }
            let r = effects.run();
            proof {
                lemma_text_block_push(all2, effects.made(), n, plan[1], r);
                let made = effects.made().skip(n);
                assert(made == seq![(plan[0], r0), (plan[1], r)]);
                if r is Ok {
                    lemma_ok_is_unit(r);
                    assert(succeeded(plan) == made);
                } else {
                    assert(plan.take(1) == seq![plan[0]]);
                    assert(succeeded(plan.take(1)) == seq![(plan[0], Ok::<(), String>(()))]);
                    assert(made.drop_last() == seq![(plan[0], Ok::<(), String>(()))]);
                }
            }
            r
        },
        // if backspace is pressed then pop the last character
        TextEventKind::Backspace { timestamp, ctrl } => {
            event.set_consumed();
            let ghost all1 = effects.made();
            let mut content = effects.get();
            let ghost c = compact_chars(content);
            proof {
                lemma_text_block_push(all1, effects.made(), n, TextCall::Read(c), Ok::<(), String>(()));
            }
            let ghost sound = c.len() > 0 && sound_allowed(timestamp, previous);
            let ghost plan = text_key_plan(previous, event.ev(), c);
            let ghost middle = if sound {
                seq![TextCall::Sound(SingleLineTextInputSoundVariant::TextRemoved)]
            } else {
                seq![]
            };
            assert(plan == seq![TextCall::Read(c)] + middle + seq![
                TextCall::Write(erase_spec(c, ctrl)),
            ]);
            if !compact_is_empty(&content) && typing_sound_allowed(
                timestamp,
                *previous_text_input_timestamp,
            ) {
                *previous_text_input_timestamp = timestamp;
                let ghost all2 = effects.made();
                let r = effects.sound(SingleLineTextInputSoundVariant::TextRemoved);
                proof {
                    lemma_text_block_push(
                        all2,
                        effects.made(),
                        n,
                        TextCall::Sound(SingleLineTextInputSoundVariant::TextRemoved),
                        r,
                    );
                }
                if r.is_err() {
                    proof {
                        let made = effects.made().skip(n);
                        assert(made.drop_last() == seq![(TextCall::Read(c), Ok::<(), String>(()))]);
                        assert(plan.take(1) == seq![TextCall::Read(c)]);
                        assert(succeeded(plan.take(1)) == seq![(TextCall::Read(c), Ok::<(), String>(()))]);
                    }
                    return r;
                }
                proof {
                    lemma_ok_is_unit(r);
                }
            }
            erase_text(&mut content, ctrl);
            let ghost all3 = effects.made();
            effects.set(content);
            proof {
                lemma_text_block_push(all3, effects.made(), n, TextCall::Write(erase_spec(c, ctrl)), Ok::<(), String>(()));
                let made = effects.made().skip(n);
                if sound {
                    assert(made == seq![
                        (TextCall::Read(c), Ok::<(), String>(())),
                        (TextCall::Sound(SingleLineTextInputSoundVariant::TextRemoved), Ok::<(), String>(())),
                        (TextCall::Write(erase_spec(c, ctrl)), Ok::<(), String>(())),
                    ]);
                    assert(plan == seq![
                        TextCall::Read(c),
                        TextCall::Sound(SingleLineTextInputSoundVariant::TextRemoved),
                        TextCall::Write(erase_spec(c, ctrl)),
                    ]);
                } else {
                    assert(made == seq![
                        (TextCall::Read(c), Ok::<(), String>(())),
                        (TextCall::Write(erase_spec(c, ctrl)), Ok::<(), String>(())),
                    ]);
                    assert(plan == seq![TextCall::Read(c), TextCall::Write(erase_spec(c, ctrl))]);
                }
                assert(succeeded(plan) == made);
            }
            Ok(())
        },
        // if text is typed then append it to the text. a text input event is
        // NOT a key down event. it handles utf8 typing
        TextEventKind::Text { timestamp } => {
            event.set_consumed();
            let ghost sound = sound_allowed(timestamp, previous);
            if typing_sound_allowed(timestamp, *previous_text_input_timestamp) {
                *previous_text_input_timestamp = timestamp;
                let ghost all1 = effects.made();
                let r = effects.sound(SingleLineTextInputSoundVariant::TextAdded);
                proof {
                    lemma_text_block_push(
                        all1,
                        effects.made(),
                        n,
                        TextCall::Sound(SingleLineTextInputSoundVariant::TextAdded),
                        r,
                    );
                }
                if r.is_err() {
                    proof {
                        let made = effects.made().skip(n);
                        let plan = text_key_plan(previous, event.ev(), text_read(made));
                        assert(made.drop_last() == Seq::<(TextCall, Result<(), String>)>::empty());
                        assert(plan.take(0) == Seq::<TextCall>::empty());
                        assert(plan[0] == TextCall::Sound(SingleLineTextInputSoundVariant::TextAdded));
                    }
                    return r;
                }
                proof {
                    lemma_ok_is_unit(r);
                }
            }
            let ghost all2 = effects.made();
            let mut content = effects.get();
            let ghost c = compact_chars(content);
            proof {
                lemma_text_block_push(all2, effects.made(), n, TextCall::Read(c), Ok::<(), String>(()));
            }
            let typed = typed_text(event.event());
            compact_push_str(&mut content, typed);
            let ghost all3 = effects.made();
            effects.set(content);
            proof {
                lemma_text_block_push(all3, effects.made(), n, TextCall::Write(c + typed@), Ok::<(), String>(()));
                let made = effects.made().skip(n);
                let plan = text_key_plan(previous, event.ev(), c);
                if sound {
                    assert(made == seq![
                        (TextCall::Sound(SingleLineTextInputSoundVariant::TextAdded), Ok::<(), String>(())),
                        (TextCall::Read(c), Ok::<(), String>(())),
                        (TextCall::Write(c + typed@), Ok::<(), String>(())),
                    ]);
                    assert(plan == seq![
                        TextCall::Sound(SingleLineTextInputSoundVariant::TextAdded),
                        TextCall::Read(c),
                        TextCall::Write(c + typed@),
                    ]);
                } else {
                    assert(made == seq![(TextCall::Read(c), Ok::<(), String>(())), (TextCall::Write(c + typed@), Ok::<(), String>(()))]);
                    assert(plan == seq![TextCall::Read(c), TextCall::Write(c + typed@)]);
                }
                assert(succeeded(plan) == made);
            }
            Ok(())
        },
        TextEventKind::Other => Ok(()),
    }
}


/// The reaction of a text input to one event: the default focus behavior;
/// then, if the input is focused, the focus sound if it had not had the focus
/// yet, and, if the event is still available, `text_input_key`.
fn text_input_event<
    E: SingleLineTextEditState + ?Sized,
    S: SingleLineTextInputSoundStyle + ?Sized,
    F: FnMut() -> Result<(), String> + ?Sized,
>(
    focus_id: &FocusID,
    focus_manager: &mut FocusManager,
    previously_focused: &mut bool,
    previous_text_input_timestamp: &mut u32,
    position: Option<Rect>,
    clipping_rect: ClippingRect,
    window_id: u32,
    event: &mut SDLEvent,
    effects: &mut TextEffects<E, S, F>,
) -> (r: Result<(), String>)
    ensures
        final(event).ev() == old(event).ev(),
        ({
            let st = TextInputModel {
                previously_focused: *old(previously_focused),
                focus: old(focus_manager).focused(),
                previous: *old(previous_text_input_timestamp),
            };
            let n = old(effects).made().len();
            let made = final(effects).made().skip(n as int);
            let (next, status) = text_input_result(
                focus_id@,
                st,
                position,
                clipping_rect,
                window_id,
                *old(event),
                made,
            );
            &&& final(effects).made().len() >= n
            &&& final(effects).made().take(n as int) == old(effects).made()
            &&& calls_made(
                made,
                text_input_plan(focus_id@, st, position, clipping_rect, window_id, *old(event), text_read(made)),
                r,
            )
            &&& *final(previously_focused) == next.previously_focused
            &&& final(focus_manager).focused() == next.focus
            &&& *final(previous_text_input_timestamp) == next.previous
            &&& final(event).status() == status
        }),
{
    let ghost all0 = effects.made();
    let ghost n = all0.len() as int;
    assert(all0.take(n) == all0);
    assert(all0.skip(n) == Seq::<(TextCall, Result<(), String>)>::empty());
    assert(succeeded(Seq::<TextCall>::empty()) == Seq::<(TextCall, Result<(), String>)>::empty());
    if !event.available() {
        return Ok(());
    }
    FocusManager::default_widget_focus_behavior(
        focus_id,
        focus_manager,
        position,
        clipping_rect,
        window_id,
        event,
    );

    if !focus_manager.is_focused(focus_id) {
        // keys:
        // - only applicable if currently focused
        // - consume key event once used
        return Ok(());
    }

    let ghost focus_sound = if *previously_focused {
        Seq::<TextCall>::empty()
    } else {
        seq![TextCall::Sound(SingleLineTextInputSoundVariant::Focus)]
    };
    if !*previously_focused {
        *previously_focused = true;
        let ghost all1 = effects.made();
        let r = effects.sound(SingleLineTextInputSoundVariant::Focus);
        proof {
            lemma_text_block_push(all1, effects.made(), n, focus_sound[0], r);
            assert(effects.made().skip(n) == seq![(focus_sound[0], r)]);
        }
        if r.is_err() {
            proof {
                let made = effects.made().skip(n);
                assert(made.drop_last() == Seq::<(TextCall, Result<(), String>)>::empty());
                let plan = text_input_plan(focus_id@, TextInputModel {
                    previously_focused: false,
                    focus: old(focus_manager).focused(),
                    previous: *old(previous_text_input_timestamp),
                }, position, clipping_rect, window_id, *old(event), text_read(made));
                assert(plan[0] == focus_sound[0]);
                assert(plan.take(0) == Seq::<TextCall>::empty());
            }
            return r;
        }
        proof {
                    lemma_ok_is_unit(r);
                }
        assert(succeeded(focus_sound) == seq![(focus_sound[0], Ok::<(), String>(()))]);
    }
    assert(effects.made().skip(n) == succeeded(focus_sound));

    if event.consumed() {
        proof {
            assert(focus_sound + Seq::<TextCall>::empty() == focus_sound);
        }
        return Ok(());  // consumed as a result of default_widget_focus_behavior
    }
    let ghost all2 = effects.made();
    let ghost n2 = all2.len() as int;
    let r = text_input_key(previous_text_input_timestamp, event, effects);
    proof {
        let e = effects.made().skip(n2);
        let made = effects.made().skip(n);
        assert(effects.made() == all2 + e) by {
            assert(effects.made() == effects.made().take(n2) + e);
        }
        assert(made == succeeded(focus_sound) + e);
        assert(effects.made().take(n) == all0) by {
            assert(effects.made().take(n) == all2.take(n));
        }
        lemma_calls_made_after(focus_sound, text_key_plan(*old(previous_text_input_timestamp), old(event).ev(), text_read(e)), e, r);
        assert forall|k: int| 0 <= k < succeeded(focus_sound).len() implies !(#[trigger] succeeded(focus_sound)[k].0 is Read) by {}
        lemma_text_read_after(succeeded(focus_sound), e);
        if !*old(previously_focused) {
            assert(made[0] == (focus_sound[0], Ok::<(), String>(())));
        }
        assert(text_key_result(*old(previous_text_input_timestamp), *old(event), made)
            == text_key_result(*old(previous_text_input_timestamp), *old(event), e));
    }
    r
}


/// The focus sound that an update plays first: when the input has the focus
/// and did not have it at the end of the previous update.
pub open spec fn text_input_start_calls(focused: bool, focused_previous_frame: bool) -> Seq<TextCall> {
    if focused && !focused_previous_frame {
        seq![TextCall::Sound(SingleLineTextInputSoundVariant::Focus)]
    } else {
        seq![]
    }
}

/// What an update did, from the state `st0`, with the calls `start` due first:
/// either the first of them failed, and nothing else happened; or they all
/// succeeded and the events `before` were handled into `after`, with the
/// calls made for them (those of `made` after `start`) in blocks, ending in a
/// state with the focus `focus` and the previous typing sound at `previous`.
pub open spec fn text_input_outcome(
    id: (Seq<char>, Seq<char>, Seq<char>),
    st0: TextInputModel,
    start: Seq<TextCall>,
    position: Option<Rect>,
    clipping_rect: ClippingRect,
    window_id: u32,
    before: Seq<SDLEvent>,
    after: Seq<SDLEvent>,
    made: Seq<(TextCall, Result<(), String>)>,
    r: Result<(), String>,
    focus: Option<Seq<char>>,
    previous: u32,
) -> bool {
    ||| {
        &&& start.len() == 1
        &&& r is Err
        &&& made == seq![(start[0], r)]
        &&& focus == st0.focus
        &&& previous == st0.previous
        &&& after == before
    }
    ||| {
        &&& made.len() >= start.len()
        &&& made.take(start.len() as int) == succeeded(start)
        &&& exists|blocks: Seq<Seq<(TextCall, Result<(), String>)>>|
            #[trigger] text_input_ran(
                id,
                st0,
                position,
                clipping_rect,
                window_id,
                before,
                after,
                blocks,
                made.skip(start.len() as int),
                r,
                focus,
                previous,
            )
    }
}

/// Law: when the input has the focus at the start of an update and did not
/// have it at the end of the previous one, the first call of the update is
/// the focus sound.
pub proof fn lemma_text_input_focus_sound_first(
    id: (Seq<char>, Seq<char>, Seq<char>),
    st0: TextInputModel,
    position: Option<Rect>,
    clipping_rect: ClippingRect,
    window_id: u32,
    before: Seq<SDLEvent>,
    after: Seq<SDLEvent>,
    made: Seq<(TextCall, Result<(), String>)>,
    r: Result<(), String>,
    focus: Option<Seq<char>>,
    previous: u32,
)
    requires
        text_input_outcome(
            id,
            st0,
            text_input_start_calls(true, false),
            position,
            clipping_rect,
            window_id,
            before,
            after,
            made,
            r,
            focus,
            previous,
        ),
    ensures
        made.len() >= 1,
        made[0].0 == TextCall::Sound(SingleLineTextInputSoundVariant::Focus),
{
    let start = text_input_start_calls(true, false);
    if made.len() >= 1 && made.take(1) == succeeded(start) {
        assert(made[0] == made.take(1)[0]);
    }
}

/// Law: an update that fails returns what the last call it made returned.
#[verifier::spinoff_prover]
pub proof fn lemma_text_input_error_is_last_call(
    id: (Seq<char>, Seq<char>, Seq<char>),
    st0: TextInputModel,
    start: Seq<TextCall>,
    position: Option<Rect>,
    clipping_rect: ClippingRect,
    window_id: u32,
    before: Seq<SDLEvent>,
    after: Seq<SDLEvent>,
    made: Seq<(TextCall, Result<(), String>)>,
    r: Result<(), String>,
    focus: Option<Seq<char>>,
    previous: u32,
)
    requires
        text_input_outcome(
            id,
            st0,
            start,
            position,
            clipping_rect,
            window_id,
            before,
            after,
            made,
            r,
            focus,
            previous,
        ),
        r is Err,
    ensures
        made.len() >= 1,
        made.last().1 == r,
{
    if !(start.len() == 1 && made == seq![(start[0], r)]) {
        let blocks = choose|blocks: Seq<Seq<(TextCall, Result<(), String>)>>|
            #[trigger] text_input_ran(
                id,
                st0,
                position,
                clipping_rect,
                window_id,
                before,
                after,
                blocks,
                made.skip(start.len() as int),
                r,
                focus,
                previous,
            );
        let p = blocks.len() - 1;
        let b = blocks[p];
        let plan = text_input_plan(
            id,
            text_input_fold(id, st0, position, clipping_rect, window_id, before.take(p), blocks.take(p)),
            position,
            clipping_rect,
            window_id,
            before[p],
            text_read(b),
        );
        assert(calls_made(b, plan, r)) by {
            reveal(text_input_handled);
        }
        lemma_calls_made_error(b, plan, r);
        assert(blocks.drop_last().push(b) == blocks);
        let rest = made.skip(start.len() as int);
        assert(rest == blocks.drop_last().flatten_alt() + b);
        assert(rest.last() == b.last());
        assert(made.last() == rest.last());
    }
}

/// The update of a single line text input for one frame.
///
/// `position` is the widget's position on the pixel grid (nothing if it has
/// no area). Each event that is still available is first given to the default
/// focus behavior; while the input is focused it then uses key events:
/// releasing enter plays the enter sound and runs the functionality,
/// backspace erases the last character (everything while control is held)
/// and typed text is appended. Typing sounds are played at most every
/// `SOUND_LIMITER` milliseconds, and a sound is played when the input gains
/// the focus. The text, the sounds and the functionality are reached through
/// `effects`, in the order of `text_input_start_calls` and `text_input_plan`;
/// the first call that fails ends the update, and its error is returned.
pub fn single_line_text_input_update<
    E: SingleLineTextEditState + ?Sized,
    S: SingleLineTextInputSoundStyle + ?Sized,
    F: FnMut() -> Result<(), String> + ?Sized,
>(
    focus_id: &FocusID,
    focus_manager: &mut FocusManager,
    focused_previous_frame: &mut bool,
    previous_text_input_timestamp: &mut u32,
    position: Option<Rect>,
    clipping_rect: ClippingRect,
    window_id: u32,
    events: &mut [SDLEvent],
    effects: &mut TextEffects<E, S, F>,
) -> (r: Result<(), String>)
    ensures
        final(events)@.len() == old(events)@.len(),
        forall|i: int|
            0 <= i < old(events)@.len() ==> (#[trigger] final(events)@[i]).ev() == old(
                events,
            )@[i].ev(),
        *final(focused_previous_frame) == if r is Ok {
            final(focus_manager).focused() == Some(focus_id.me@)
        } else {
            *old(focused_previous_frame)
        },
        // an error is what the last call made returned
        r is Err ==> final(effects).made().len() > old(effects).made().len()
            && final(effects).made().last().1 == r,
        ({
            let n = old(effects).made().len();
            let made = final(effects).made().skip(n as int);
            let focused = old(focus_manager).focused() == Some(focus_id.me@);
            let start = text_input_start_calls(focused, *old(focused_previous_frame));
            let st0 = TextInputModel {
                previously_focused: focused,
                focus: old(focus_manager).focused(),
                previous: *old(previous_text_input_timestamp),
            };
            &&& final(effects).made().len() >= n
            &&& final(effects).made().take(n as int) == old(effects).made()
            &&& text_input_outcome(
                focus_id@,
                st0,
                start,
                position,
                clipping_rect,
                window_id,
                old(events)@,
                final(events)@,
                made,
                r,
                final(focus_manager).focused(),
                *final(previous_text_input_timestamp),
            )
        }),
{
    let ghost id = focus_id@;
    let ghost initial = events@;
    let ghost made0 = effects.made();
    let ghost n0 = made0.len() as int;
    assert(made0.take(n0) == made0);
    // detect rising edge of focus, for sound playing
    let mut previously_focused = focus_manager.is_focused(focus_id);
    let ghost st0 = TextInputModel {
        previously_focused,
        focus: focus_manager.focused(),
        previous: *previous_text_input_timestamp,
    };
    let ghost start = text_input_start_calls(previously_focused, *focused_previous_frame);
    if previously_focused && !*focused_previous_frame {
        // detect if focus was sent to this widget for any reason by something
        // else since the last time it was updated
        let ghost all1 = effects.made();
        let r = effects.sound(SingleLineTextInputSoundVariant::Focus);
        proof {
            lemma_text_block_push(all1, effects.made(), n0, start[0], r);
            assert(all1.skip(n0) == Seq::<(TextCall, Result<(), String>)>::empty());
        }
        if r.is_err() {
            assert(effects.made().last() == (start[0], r));
            return r;
        }
        proof {
            lemma_ok_is_unit(r);
        }
        assert(succeeded(start) == seq![(start[0], Ok::<(), String>(()))]);
    } else {
        assert(effects.made().skip(n0) == Seq::<(TextCall, Result<(), String>)>::empty());
        assert(succeeded(start) == Seq::<(TextCall, Result<(), String>)>::empty());
    }
    let ghost m0 = effects.made().skip(n0);
    assert(m0 == succeeded(start));

    let len = events.len();
    let mut i: usize = 0;
    let ghost mut blocks: Seq<Seq<(TextCall, Result<(), String>)>> = Seq::empty();
    assert(initial.take(len as int) == initial);
    assert(initial.take(0) == Seq::<SDLEvent>::empty());
    assert(m0 + blocks.flatten_alt() == m0);
    assert(text_input_handled(id, st0, position, clipping_rect, window_id, initial, events@, blocks, Ok::<(), String>(())))
        by {
        reveal(text_input_handled);
    }
    let mut result: Result<(), String> = Ok(());
    while i < len && result.is_ok()
        invariant
            id == focus_id@,
            len == events@.len(),
            initial.len() == len,
            initial == old(events)@,
            initial.take(len as int) == initial,
            i <= len,
            result is Ok ==> blocks.len() == i,
            result is Err ==> blocks.len() == i + 1 && i < len,
            *focused_previous_frame == *old(focused_previous_frame),
            made0 == old(effects).made(),
            n0 == made0.len(),
            m0 == succeeded(start),
            effects.made().len() >= n0,
            effects.made().take(n0) == made0,
            effects.made().skip(n0) == m0 + blocks.flatten_alt(),
            forall|k: int| 0 <= k < len ==> (#[trigger] events@[k]).ev() == initial[k].ev(),
            text_input_handled(id, st0, position, clipping_rect, window_id, initial, events@, blocks, result),
            forall|k: int| blocks.len() <= k < len ==> #[trigger] events@[k] == initial[k],
            ({
                let st = text_input_fold(
                    id,
                    st0,
                    position,
                    clipping_rect,
                    window_id,
                    initial.take(blocks.len() as int),
                    blocks,
                );
                &&& previously_focused == st.previously_focused
                &&& focus_manager.focused() == st.focus
                &&& *previous_text_input_timestamp == st.previous
            }),
        decreases len - i + if result is Ok { 1int } else { 0int },
    {
        proof {
            lemma_ok_is_unit(result);
        }
        let ghost before = effects.made();
        let ghost nb = before.len() as int;
        let ghost events0 = events@;
        let r = text_input_event(
            focus_id,
            focus_manager,
            &mut previously_focused,
            previous_text_input_timestamp,
            position,
            clipping_rect,
            window_id,
            &mut events[i],
            effects,
        );
        let ghost b = effects.made().skip(nb);
        proof {
            assert(effects.made() == before + b) by {
                assert(effects.made() == effects.made().take(nb) + b);
            }
            assert(effects.made().take(n0) == made0) by {
                assert(effects.made().take(n0) == before.take(n0));
            }
            assert(effects.made().skip(n0) == before.skip(n0) + b);
            assert(events0[i as int] == initial[i as int]);
            lemma_text_input_handled_push(
                id,
                st0,
                position,
                clipping_rect,
                window_id,
                initial,
                events0,
                events@,
                blocks,
                b,
                r,
            );
            assert(m0 + blocks.flatten_alt() + b == m0 + (blocks.flatten_alt() + b));
            blocks = blocks.push(b);
        }
        if r.is_err() {
            result = r;
        } else {
            proof {
                lemma_ok_is_unit(r);
            }
            i = i + 1;
        }
    }
    proof {
        let made = effects.made().skip(n0);
        assert(made.len() >= start.len());
        assert(made.take(start.len() as int) == succeeded(start));
        assert(made.skip(start.len() as int) == blocks.flatten_alt());
        assert(initial.take(blocks.len() as int) == initial.take(blocks.len() as int));
        assert(text_input_ran(
            id,
            st0,
            position,
            clipping_rect,
            window_id,
            initial,
            events@,
            blocks,
            made.skip(start.len() as int),
            result,
            focus_manager.focused(),
            *previous_text_input_timestamp,
        ));
        assert(text_input_outcome(
            id,
            st0,
            start,
            position,
            clipping_rect,
            window_id,
            initial,
            events@,
            made,
            result,
            focus_manager.focused(),
            *previous_text_input_timestamp,
        ));
    }
    if result.is_err() {
        proof {
            let made = effects.made().skip(n0);
            lemma_text_input_error_is_last_call(
                id,
                st0,
                start,
                position,
                clipping_rect,
                window_id,
                initial,
                events@,
                made,
                result,
                focus_manager.focused(),
                *previous_text_input_timestamp,
            );
            assert(effects.made().last() == made.last());
        }
        return result;
    }
    proof {
        lemma_ok_is_unit(result);
    }
    *focused_previous_frame = focus_manager.is_focused(focus_id);
    assert(*focused_previous_frame == (focus_manager.focused() == Some(focus_id.me@)));
    Ok(())
}

} // verus!
