//! Button scanner: debouncing and classification of presses.

use vstd::prelude::*;

use crate::modem::message::{ButtonType, BUTTON_TYPE_LONG, BUTTON_TYPE_SHORT};

verus! {

/// Debounce window for press and release transitions, in nanoseconds.
pub const BUTTON_DEBOUNCE_NS: u64 = 30_000_000;

/// Hold time from which on a press is a long one, in nanoseconds.
pub const BUTTON_LONG_THRESHOLD_NS: u64 = 1_000_000_000;

/// State of the debouncing and classification.
#[derive(Clone, Copy, Debug, PartialEq, Eq, Structural)]
pub enum ButtonState {
    /// Not pressed; waiting for a press.
    Idle,
    /// Pressed; waiting for the debounce window to confirm it.
    DebouncePress { since: u64 },
    /// A confirmed press, held since `press_start`.
    Pressed { press_start: u64 },
    /// Released; waiting for the debounce window to confirm it.
    DebounceRelease { press_start: u64, since: u64 },
}

/// Whether the debounce window that opened at `since` has passed at `now`.
pub open spec fn settled(since: u64, now: u64) -> bool {
    now - since >= BUTTON_DEBOUNCE_NS
}

/// How a press is classified that was confirmed at `press_start` and whose
/// release window opened at `since`: the hold ends when that window closes.
pub open spec fn classify(press_start: u64, since: u64) -> ButtonType {
    if since + BUTTON_DEBOUNCE_NS - press_start >= BUTTON_LONG_THRESHOLD_NS {
        ButtonType::Long
    } else {
        ButtonType::Short
    }
}

impl ButtonState {
    /// The state after the button was seen pressed or not at time `now`.
    pub open spec fn next(self, now: u64, pressed: bool) -> ButtonState {
        match self {
            ButtonState::Idle => if pressed {
                ButtonState::DebouncePress { since: now }
            } else {
                self
            },
            ButtonState::DebouncePress { since } => if !pressed {
                ButtonState::Idle
            } else if settled(since, now) {
                ButtonState::Pressed { press_start: (since + BUTTON_DEBOUNCE_NS) as u64 }
            } else {
                self
            },
            ButtonState::Pressed { press_start } => if !pressed {
                ButtonState::DebounceRelease { press_start, since: now }
            } else {
                self
            },
            ButtonState::DebounceRelease { press_start, since } => if pressed {
                ButtonState::Pressed { press_start }
            } else if settled(since, now) {
                ButtonState::Idle
            } else {
                self
            },
        }
    }

    /// The event that this observation completes: a confirmed release.
    pub open spec fn event(self, now: u64, pressed: bool) -> Option<ButtonType> {
        match self {
            ButtonState::DebounceRelease { press_start, since } => if !pressed && settled(
                since,
                now,
            ) {
                Some(classify(press_start, since))
            } else {
                None
            },
            _ => None,
        }
    }
}

/// A button input: a GPIO on the device, or none.
pub trait ButtonPoll: Sized {
    /// What a poll at `now_ns` may do: take the input from `pre` to `post` and
    /// report `event`.
    open spec fn polled(pre: Self, now_ns: u64, post: Self, event: Option<ButtonType>) -> bool {
        true
    }

    /// Whether the input can be polled.
    open spec fn ready(&self) -> bool {
        true
    }

    /// Poll the button; a press is reported once its release is confirmed.
    fn poll(&mut self, now_ns: u64) -> (event: Option<ButtonType>)
        requires
            old(self).ready(),
        ensures
            final(self).ready(),
            Self::polled(*old(self), now_ns, *final(self), event),
    ;
}

/// Platform-independent button scanner around a GPIO read function.
pub struct ButtonScanner<F: FnMut() -> bool> {
    read_gpio: F,
    state: ButtonState,
}

impl<F: FnMut() -> bool> View for ButtonScanner<F> {
    type V = ButtonState;

    closed spec fn view(&self) -> ButtonState {
        self.state
    }
}

impl<F: FnMut() -> bool> ButtonScanner<F> {
    /// The GPIO read function.
    pub closed spec fn gpio(&self) -> F {
        self.read_gpio
    }

    /// A scanner that reads the button with `read_gpio`, which returns `true`
    /// when the button is pressed.
    pub fn new(read_gpio: F) -> (scanner: ButtonScanner<F>)
        ensures
            scanner@ == ButtonState::Idle,
            scanner.gpio() == read_gpio,
    {
        ButtonScanner { read_gpio, state: ButtonState::Idle }
    }

    /// Read the button and advance the state machine.
    pub fn poll(&mut self, now_ns: u64) -> (event: Option<ButtonType>)
        requires
            call_requires(old(self).gpio(), ()),
        ensures
            final(self).gpio() == old(self).gpio(),
            exists|pressed: bool| #[trigger]
                call_ensures(old(self).gpio(), (), pressed) && final(self)@ == old(self)@.next(
                    now_ns,
                    pressed,
                ) && event == old(self)@.event(now_ns, pressed),
    {
        let pressed = (self.read_gpio)();
        self.poll_at(now_ns, pressed)
    }

    /// Advance the state machine with an explicit time and button state.
    pub fn poll_at(&mut self, now_ns: u64, pressed: bool) -> (event: Option<ButtonType>)
        ensures
            final(self).gpio() == old(self).gpio(),
            final(self)@ == old(self)@.next(now_ns, pressed),
            event == old(self)@.event(now_ns, pressed),
    {
        match self.state {
            ButtonState::Idle => {
                if pressed {
                    self.state = ButtonState::DebouncePress { since: now_ns };
                }
                None
            },
            ButtonState::DebouncePress { since } => {
                if !pressed {
                    self.state = ButtonState::Idle;
                } else if now_ns.saturating_sub(since) >= BUTTON_DEBOUNCE_NS {
                    // The debounced instant, not `now_ns`, so that the polling
                    // cadence does not change the measured hold time.
                    self.state = ButtonState::Pressed { press_start: since + BUTTON_DEBOUNCE_NS };
                }
                None
            },
            ButtonState::Pressed { press_start } => {
                if !pressed {
                    self.state = ButtonState::DebounceRelease { press_start, since: now_ns };
                }
                None
            },
            ButtonState::DebounceRelease { press_start, since } => {
                if pressed {
                    self.state = ButtonState::Pressed { press_start };
                    None
                } else if now_ns.saturating_sub(since) >= BUTTON_DEBOUNCE_NS {
                    self.state = ButtonState::Idle;
                    let debounced_release: u64 = since + BUTTON_DEBOUNCE_NS;
                    if debounced_release.saturating_sub(press_start) >= BUTTON_LONG_THRESHOLD_NS {
                        Some(BUTTON_TYPE_LONG)
                    } else {
                        Some(BUTTON_TYPE_SHORT)
                    }
                } else {
                    None
                }
            },
        }
    }
}

/// No button: never reports a press.
pub struct NoButton;

impl NoButton {
    /// Polling a missing button reports nothing.
    pub fn poll(&mut self, now_ns: u64) -> (event: Option<ButtonType>)
        ensures
            event is None,
            *final(self) == *old(self),
    {
        let _ = now_ns;
        None
    }
}

impl ButtonPoll for NoButton {
    open spec fn polled(
        pre: NoButton,
        now_ns: u64,
        post: NoButton,
        event: Option<ButtonType>,
    ) -> bool {
        event is None && post == pre
    }

    open spec fn ready(&self) -> bool {
        true
    }

    fn poll(&mut self, now_ns: u64) -> (event: Option<ButtonType>) {
        NoButton::poll(self, now_ns)
    }
}

impl<F: FnMut() -> bool> ButtonPoll for ButtonScanner<F> {
    open spec fn polled(pre: Self, now_ns: u64, post: Self, event: Option<ButtonType>) -> bool {
        &&& post.gpio() == pre.gpio()
        &&& exists|pressed: bool| #[trigger]
            call_ensures(pre.gpio(), (), pressed) && post@ == pre@.next(now_ns, pressed) && event
                == pre@.event(now_ns, pressed)
    }

    open spec fn ready(&self) -> bool {
        call_requires(self.gpio(), ())
    }

    fn poll(&mut self, now_ns: u64) -> (event: Option<ButtonType>) {
        ButtonScanner::poll(self, now_ns)
    }
}

/// A press that is let go before the debounce window has passed leaves no
/// trace.
pub proof fn law_glitch_is_ignored(t0: u64, t1: u64)
    ensures
        ({
            let pressed = ButtonState::Idle.next(t0, true);
            &&& ButtonState::Idle.event(t0, true) is None
            &&& pressed.event(t1, false) is None
            &&& pressed.next(t1, false) == ButtonState::Idle
        }),
{
}

/// While the button is held no event is reported, and a release that bounces
/// back within the debounce window keeps the press and its start.
pub proof fn law_no_event_while_held(press_start: u64, t1: u64, t2: u64)
    ensures
        ({
            let held = ButtonState::Pressed { press_start };
            &&& held.event(t1, true) is None
            &&& held.next(t1, true) == held
            &&& held.event(t1, false) is None
            &&& held.next(t1, false).event(t2, true) is None
            &&& held.next(t1, false).next(t2, true) == held
        }),
{
}

/// A poll: its time, and whether the button was seen pressed.
pub ghost struct Poll {
    pub now: u64,
    pub pressed: bool,
}

/// The state after `polls`.
pub open spec fn after_polls(state: ButtonState, polls: Seq<Poll>) -> ButtonState
    decreases polls.len(),
{
    if polls.len() == 0 {
        state
    } else {
        after_polls(state, polls.drop_last()).next(polls.last().now, polls.last().pressed)
    }
}

/// The events that `polls` report, in order.
pub open spec fn events_of(state: ButtonState, polls: Seq<Poll>) -> Seq<ButtonType>
    decreases polls.len(),
{
    if polls.len() == 0 {
        Seq::empty()
    } else {
        let before = events_of(state, polls.drop_last());
        match after_polls(state, polls.drop_last()).event(polls.last().now, polls.last().pressed) {
            Some(event) => before.push(event),
            None => before,
        }
    }
}

/// Polls that follow others start from where those ended.
proof fn lemma_polls_split(state: ButtonState, first: Seq<Poll>, second: Seq<Poll>)
    ensures
        after_polls(state, first + second) == after_polls(after_polls(state, first), second),
        events_of(state, first + second) == events_of(state, first) + events_of(
            after_polls(state, first),
            second,
        ),
    decreases second.len(),
{
    let all = first + second;
    if second.len() == 0 {
        assert(all =~= first);
        assert(events_of(state, first) + events_of(after_polls(state, first), second)
            =~= events_of(state, first));
    } else {
        assert(all.drop_last() =~= first + second.drop_last());
        assert(all.last() == second.last());
        lemma_polls_split(state, first, second.drop_last());
        let s1 = after_polls(state, first);
        match after_polls(s1, second.drop_last()).event(second.last().now, second.last().pressed) {
            Some(event) => {
                assert(events_of(state, first) + events_of(s1, second.drop_last()).push(event)
                    =~= (events_of(state, first) + events_of(s1, second.drop_last())).push(event));
            },
            None => {},
        }
    }
}

/// While the button is seen pressed, a press that was first seen at the first
/// poll is confirmed by the first poll after the debounce window.
proof fn lemma_press_polls(polls: Seq<Poll>, n: int)
    requires
        0 < n <= polls.len(),
        forall|i: int| 0 <= i < polls.len() ==> (#[trigger] polls[i]).pressed,
    ensures
        events_of(ButtonState::Idle, polls.take(n)) == Seq::<ButtonType>::empty(),
        after_polls(ButtonState::Idle, polls.take(n)) == (if exists|i: int|
            1 <= i < n && settled(polls[0].now, (#[trigger] polls[i]).now) {
            ButtonState::Pressed { press_start: (polls[0].now + BUTTON_DEBOUNCE_NS) as u64 }
        } else {
            ButtonState::DebouncePress { since: polls[0].now }
        }),
    decreases n,
{
    let here = polls.take(n);
    assert(here.drop_last() =~= polls.take(n - 1));
    assert(here.last() == polls[n - 1]);
    assert(polls[n - 1].pressed == polls[0].pressed);
    if n == 1 {
        reveal_with_fuel(after_polls, 2);
        reveal_with_fuel(events_of, 2);
        assert(polls.take(0).len() == 0);
    } else {
        lemma_press_polls(polls, n - 1);
        if exists|i: int| 1 <= i < n - 1 && settled(polls[0].now, (#[trigger] polls[i]).now) {
            let i = choose|i: int|
                1 <= i < n - 1 && settled(polls[0].now, (#[trigger] polls[i]).now);
            assert(1 <= i < n && settled(polls[0].now, polls[i].now));
        } else if settled(polls[0].now, polls[n - 1].now) {
            assert(1 <= n - 1 < n && settled(polls[0].now, polls[n - 1].now));
        }
    }
}

/// Polls of a confirmed press that report no event keep the press and its
/// start.
proof fn lemma_held_polls(press_start: u64, polls: Seq<Poll>)
    requires
        events_of(ButtonState::Pressed { press_start }, polls).len() == 0,
    ensures
        ({
            let state = after_polls(ButtonState::Pressed { press_start }, polls);
            &&& state == (ButtonState::Pressed { press_start })
                || (state matches ButtonState::DebounceRelease { press_start: start, .. } && start
                == press_start)
            &&& polls.len() > 0 && polls.last().pressed ==> state == (ButtonState::Pressed {
                press_start,
            })
        }),
    decreases polls.len(),
{
    if polls.len() > 0 {
        lemma_held_polls(press_start, polls.drop_last());
    }
}

/// While the button is seen released, the release of a confirmed press is
/// confirmed, and reported, by the first poll after the debounce window; later
/// polls report nothing.
proof fn lemma_release_polls(press_start: u64, polls: Seq<Poll>, n: int)
    requires
        0 < n <= polls.len(),
        forall|i: int| 0 <= i < polls.len() ==> !(#[trigger] polls[i]).pressed,
    ensures
        ({
            let held = ButtonState::Pressed { press_start };
            let released = polls[0].now;
            let confirmed = exists|i: int|
                1 <= i < n && settled(released, (#[trigger] polls[i]).now);
            &&& after_polls(held, polls.take(n)) == (if confirmed {
                ButtonState::Idle
            } else {
                ButtonState::DebounceRelease { press_start, since: released }
            })
            &&& events_of(held, polls.take(n)) == (if confirmed {
                seq![classify(press_start, released)]
            } else {
                Seq::empty()
            })
        }),
    decreases n,
{
    let here = polls.take(n);
    let released = polls[0].now;
    assert(here.drop_last() =~= polls.take(n - 1));
    assert(here.last() == polls[n - 1]);
    assert(polls[n - 1].pressed == polls[0].pressed);
    if n == 1 {
        reveal_with_fuel(after_polls, 2);
        reveal_with_fuel(events_of, 2);
        assert(polls.take(0).len() == 0);
    } else {
        lemma_release_polls(press_start, polls, n - 1);
        if exists|i: int| 1 <= i < n - 1 && settled(released, (#[trigger] polls[i]).now) {
            let i = choose|i: int| 1 <= i < n - 1 && settled(released, (#[trigger] polls[i]).now);
            assert(1 <= i < n && settled(released, polls[i].now));
        } else if settled(released, polls[n - 1].now) {
            assert(1 <= n - 1 < n && settled(released, polls[n - 1].now));
            assert(Seq::<ButtonType>::empty().push(classify(press_start, released)) =~= seq![
                classify(press_start, released),
            ]);
        }
    }
}

/// A press gives exactly one event, whose type depends on the time between the
/// first poll that saw it and the first one that saw its release, and not on
/// how many polls there were or when they came.
///
/// `pressed` are the polls from the first that saw the press until it was
/// confirmed, `held` any further ones that report nothing, such as those of a
/// release that bounced back, and `released` those from the release on.
pub proof fn law_press_is_classified_by_hold_time(
    pressed: Seq<Poll>,
    held: Seq<Poll>,
    released: Seq<Poll>,
    confirm: int,
    done: int,
)
    requires
        forall|i: int| 0 <= i < pressed.len() ==> (#[trigger] pressed[i]).pressed,
        1 <= confirm < pressed.len(),
        settled(pressed[0].now, pressed[confirm].now),
        events_of(after_polls(ButtonState::Idle, pressed), held).len() == 0,
        held.len() > 0 ==> held.last().pressed,
        forall|i: int| 0 <= i < released.len() ==> !(#[trigger] released[i]).pressed,
        1 <= done < released.len(),
        settled(released[0].now, released[done].now),
    ensures
        events_of(ButtonState::Idle, pressed + held + released) == seq![
            if released[0].now - pressed[0].now >= BUTTON_LONG_THRESHOLD_NS {
                ButtonType::Long
            } else {
                ButtonType::Short
            },
        ],
        after_polls(ButtonState::Idle, pressed + held + released) == ButtonState::Idle,
{
    let press = pressed[0].now;
    let press_start = (press + BUTTON_DEBOUNCE_NS) as u64;
    let release = released[0].now;
    assert(pressed.take(pressed.len() as int) =~= pressed);
    lemma_press_polls(pressed, pressed.len() as int);
    lemma_held_polls(press_start, held);
    assert(released.take(released.len() as int) =~= released);
    lemma_release_polls(press_start, released, released.len() as int);
    lemma_polls_split(ButtonState::Idle, pressed, held);
    lemma_polls_split(ButtonState::Idle, pressed + held, released);
    assert(events_of(ButtonState::Idle, pressed + held) =~= Seq::<ButtonType>::empty());
    assert(events_of(ButtonState::Idle, pressed + held + released) =~= seq![
        classify(press_start, release),
    ]);
}

/// A transition counts once it has lasted thirty milliseconds, and a press is a
/// long one from a second on, counted between the confirmed press and the
/// confirmed release.
pub proof fn law_button_times(since: u64, now: u64, press_start: u64)
    ensures
        settled(since, now) <==> now >= since + 30_000_000,
        classify(press_start, since) is Long <==> since + 30_000_000 >= press_start
            + 1_000_000_000,
{
}

/// A press is confirmed where it has lasted long enough, with its start counted
/// from when it would first have been; it is only ever reported at its release.
pub proof fn law_transitions_are_confirmed(since: u64, press_start: u64, now: u64)
    ensures
        ({
            let press = ButtonState::DebouncePress { since };
            let release = ButtonState::DebounceRelease { press_start, since };
            &&& ButtonState::Idle.next(now, false) is Idle
            &&& ButtonState::Idle.next(now, true) == (ButtonState::DebouncePress { since: now })
            &&& now >= since + 30_000_000 ==> press.next(now, true) == (ButtonState::Pressed {
                press_start: (since + 30_000_000) as u64,
            })
            &&& now < since + 30_000_000 ==> press.next(now, true) == press
            &&& press.next(now, false) is Idle
            &&& press.event(now, true) is None && press.event(now, false) is None
            &&& (ButtonState::Pressed { press_start }).next(now, false) == (
            ButtonState::DebounceRelease { press_start, since: now })
            &&& release.event(now, false) is Some <==> now >= since + 30_000_000
            &&& now >= since + 30_000_000 ==> release.next(now, false) is Idle
            &&& now < since + 30_000_000 ==> release.next(now, false) == release
            &&& release.event(now, true) is None
        }),
{
}

} // verus!
