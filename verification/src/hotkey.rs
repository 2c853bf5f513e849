//! Following one key of the keyboard: which of its presses and releases are
//! reported, and which events are kept from other programs.
//!
//! A key that is held down sends its press again and again. Only the first
//! press and the release that follows it are reported.

use vstd::prelude::*;

verus! {

/// What happened on the keyboard or the mouse.
#[derive(Debug, Clone, Copy, PartialEq, Eq, Structural)]
pub enum InputKind {
    /// A key went down, or repeats while held.
    KeyPress,
    /// A key went up.
    KeyRelease,
    /// Anything else.
    Other,
}

/// One input event, as far as the hotkey is concerned.
#[derive(Debug, Clone, Copy, PartialEq, Eq, Structural)]
pub struct InputEvent {
    /// What happened.
    pub kind: InputKind,
    /// Whether it happened to the hotkey.
    pub is_hotkey: bool,
}

/// What to do about one input event.
#[derive(Debug, Clone, Copy, PartialEq, Eq, Structural)]
pub struct KeyDecision {
    /// The state of the hotkey to report, `true` for pressed; `None` where
    /// nothing is to be reported.
    pub report: Option<bool>,
    /// Whether the event is kept from other programs.
    pub swallow: bool,
}

/// Whether `event` is a press or a release of the hotkey.
pub open spec fn concerns_hotkey(event: InputEvent) -> bool {
    event.is_hotkey && event.kind != InputKind::Other
}

/// Whether the hotkey is held after `event`, given whether it was before.
pub open spec fn pressed_after(pressed: bool, event: InputEvent) -> bool {
    if concerns_hotkey(event) {
        event.kind == InputKind::KeyPress
    } else {
        pressed
    }
}

/// What is done about `event` while the hotkey is held or not, in grab mode
/// or not: a change of the hotkey's state is reported, and in grab mode
/// every press and release of the hotkey is swallowed.
pub open spec fn decision_for(pressed: bool, event: InputEvent, grab: bool) -> KeyDecision {
    KeyDecision {
        report: if concerns_hotkey(event) && pressed_after(pressed, event) != pressed {
            Some(pressed_after(pressed, event))
        } else {
            None
        },
        swallow: grab && concerns_hotkey(event),
    }
}

/// Whether the hotkey is held after all of `events`, starting from released.
pub open spec fn pressed_after_all(events: Seq<InputEvent>) -> bool
    decreases events.len(),
{
    if events.len() == 0 {
        false
    } else {
        pressed_after(pressed_after_all(events.drop_last()), events.last())
    }
}

/// The reports that `events` give rise to, in order, starting from released.
pub open spec fn reports_of(events: Seq<InputEvent>) -> Seq<bool>
    decreases events.len(),
{
    if events.len() == 0 {
        Seq::empty()
    } else {
        let before = reports_of(events.drop_last());
        match decision_for(pressed_after_all(events.drop_last()), events.last(), false).report {
            Some(state) => before.push(state),
            None => before,
        }
    }
}

/// The follower of one hotkey.
pub struct HotkeyListener {
    grab: bool,
    pressed: bool,
}

impl HotkeyListener {
    /// Whether the hotkey is held, as far as the listener has seen.
    pub closed spec fn pressed(&self) -> bool {
        self.pressed
    }

    /// Whether the listener keeps the hotkey's events from other programs.
    pub closed spec fn grabs(&self) -> bool {
        self.grab
    }

    /// A listener for a hotkey that is not held. In grab mode the hotkey's
    /// events are kept from other programs.
    pub fn new(grab: bool) -> (listener: Self)
        ensures
            !listener.pressed(),
            listener.grabs() == grab,
    {
        HotkeyListener { grab, pressed: false }
    }

    /// Whether the hotkey is held.
    pub fn is_pressed(&self) -> (pressed: bool)
        ensures
            pressed == self.pressed(),
    {
        self.pressed
    }

    /// Takes one input event and decides what to report and whether to
    /// swallow the event.
    pub fn on_event(&mut self, event: InputEvent) -> (decision: KeyDecision)
        ensures
            decision == decision_for(old(self).pressed(), event, old(self).grabs()),
            final(self).pressed() == pressed_after(old(self).pressed(), event),
            final(self).grabs() == old(self).grabs(),
    {
        let hit = event.is_hotkey && match event.kind {
            InputKind::KeyPress | InputKind::KeyRelease => true,
            InputKind::Other => false,
        };
        if !hit {
            return KeyDecision { report: None, swallow: false };
        }
        let down = match event.kind {
            InputKind::KeyPress => true,
            _ => false,
        };
        let report = if down != self.pressed {
            Some(down)
        } else {
            None
        };
        self.pressed = down;
        KeyDecision { report, swallow: self.grab }
    }
}

/// Follows the hotkey through `events`, starting from released, and returns
/// what is reported, in order.
pub fn listen(events: &[InputEvent], grab: bool) -> (reports: Vec<bool>)
    ensures
        reports@ == reports_of(events@),
{
    let mut listener = HotkeyListener::new(grab);
    let mut reports: Vec<bool> = Vec::new();
    let n = events.len();
    let mut i: usize = 0;
    while i < n
        invariant
            i <= n,
            n == events.len(),
            listener.pressed() == pressed_after_all(events@.take(i as int)),
            reports@ == reports_of(events@.take(i as int)),
        decreases n - i,
    {
        proof {
            assert(events@.take(i + 1).drop_last() =~= events@.take(i as int));
            assert(events@.take(i + 1).last() == events@[i as int]);
        }
        let decision = listener.on_event(events[i]);
        if let Some(state) = decision.report {
            reports.push(state);
        }
        i += 1;
    }
    assert(events@.take(n as int) =~= events@);
    reports
}

/// The reports alternate, beginning with a press: report number `k` says
/// pressed exactly when `k` is even, and the hotkey is held at the end
/// exactly when the number of reports is odd.
pub proof fn lemma_reports_alternate(events: Seq<InputEvent>)
    ensures
        forall|k: int| 0 <= k < reports_of(events).len() ==> (#[trigger] reports_of(events)[k] <==> k % 2 == 0),
        pressed_after_all(events) <==> reports_of(events).len() % 2 == 1,
    decreases events.len(),
{
    if events.len() > 0 {
        lemma_reports_alternate(events.drop_last());
    }
}

} // verus!
