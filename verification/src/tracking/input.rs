//! Controller input: the analog values last reported for each button and
//! axis, the thresholds a change has to pass, and the decoding of a gamepad's
//! state into change events.

use crate::platform::{Gamepad, ANALOG_ONE};
use vstd::prelude::*;

verus! {

/// A controller: the one of the left hand, the one of the right hand, or one
/// without a hand, named by the number of its input source.
#[derive(Clone, Copy, Debug, PartialEq, Eq, Hash, Structural)]
pub enum XrController {
    Left,
    Right,
    Other(usize),
}

/// The role of a button, by its place on the gamepad.
#[derive(Clone, Copy, Debug, PartialEq, Eq, Hash, Structural)]
pub enum XrControllerInputType {
    Trigger,
    Grip,
    Pad,
    Stick,
    AorX,
    BorY,
    Other(usize),
}

/// The role of an axis, by its place on the gamepad.
#[derive(Clone, Copy, Debug, PartialEq, Eq, Hash, Structural)]
pub enum XrControllerAxisType {
    PadX,
    PadY,
    StickX,
    StickY,
    Other(usize),
}

/// An analog channel of a controller: how far a button is touched, how far
/// it is pressed, or where an axis stands.
#[derive(Clone, Copy, Debug, PartialEq, Eq, Hash, Structural)]
pub enum AnalogChannel {
    Touch(XrControllerInputType),
    Press(XrControllerInputType),
    Axis(XrControllerAxisType),
}

/// One analog channel of one controller.
#[derive(Clone, Copy, Debug, PartialEq, Eq, Hash, Structural)]
pub struct AnalogKey {
    pub controller: XrController,
    pub channel: AnalogChannel,
}

/// A change of a controller that other systems are told of.
#[derive(Clone, Copy, Debug, PartialEq, Eq, Hash, Structural)]
pub enum XrControllerEvent {
    /// The controller has an entity now and is followed.
    Tracking { controller: XrController },
    TouchChanged { controller: XrController, input: XrControllerInputType, value: i32 },
    PressChanged { controller: XrController, input: XrControllerInputType, value: i32 },
    AxisChanged { controller: XrController, axis: XrControllerAxisType, value: i32 },
}

/// The role of the button at place `i`.
pub open spec fn input_type_of(i: int) -> XrControllerInputType {
    if i == 0 {
        XrControllerInputType::Trigger
    } else if i == 1 {
        XrControllerInputType::Grip
    } else if i == 2 {
        XrControllerInputType::Pad
    } else if i == 3 {
        XrControllerInputType::Stick
    } else if i == 4 {
        XrControllerInputType::AorX
    } else if i == 5 {
        XrControllerInputType::BorY
    } else {
        XrControllerInputType::Other(i as usize)
    }
}

/// The role of the axis at place `i`.
pub open spec fn axis_type_of(i: int) -> XrControllerAxisType {
    if i == 0 {
        XrControllerAxisType::PadX
    } else if i == 1 {
        XrControllerAxisType::PadY
    } else if i == 2 {
        XrControllerAxisType::StickX
    } else if i == 3 {
        XrControllerAxisType::StickY
    } else {
        XrControllerAxisType::Other(i as usize)
    }
}

pub fn index_to_input_type(i: usize) -> (input: XrControllerInputType)
    ensures
        input == input_type_of(i as int),
{
    match i {
        0 => XrControllerInputType::Trigger,
        1 => XrControllerInputType::Grip,
        2 => XrControllerInputType::Pad,
        3 => XrControllerInputType::Stick,
        4 => XrControllerInputType::AorX,
        5 => XrControllerInputType::BorY,
        i => XrControllerInputType::Other(i),
    }
}

pub fn index_to_axis_type(i: usize) -> (axis: XrControllerAxisType)
    ensures
        axis == axis_type_of(i as int),
{
    match i {
        0 => XrControllerAxisType::PadX,
        1 => XrControllerAxisType::PadY,
        2 => XrControllerAxisType::StickX,
        3 => XrControllerAxisType::StickY,
        i => XrControllerAxisType::Other(i),
    }
}

/// The thresholds of the buttons, one per role.
#[derive(Clone, Copy, Debug, PartialEq, Eq, Hash, Structural)]
pub struct InputThresholds {
    pub trigger: u32,
    pub grip: u32,
    pub pad: u32,
    pub stick: u32,
    pub a_or_x: u32,
    pub b_or_y: u32,
    pub other: u32,
}

/// The thresholds of the axes, one per role.
#[derive(Clone, Copy, Debug, PartialEq, Eq, Hash, Structural)]
pub struct AxisThresholds {
    pub pad_x: u32,
    pub pad_y: u32,
    pub stick_x: u32,
    pub stick_y: u32,
    pub other: u32,
}

/// By how much an analog value has to move away from the value last reported
/// before the move is reported, per channel and role, in fixed point.
#[derive(Clone, Copy, Debug, PartialEq, Eq, Hash, Structural)]
pub struct XrControllerSettings {
    pub touch: InputThresholds,
    pub press: InputThresholds,
    pub axis: AxisThresholds,
}

impl InputThresholds {
    pub open spec fn of(self, input: XrControllerInputType) -> u32 {
        match input {
            XrControllerInputType::Trigger => self.trigger,
            XrControllerInputType::Grip => self.grip,
            XrControllerInputType::Pad => self.pad,
            XrControllerInputType::Stick => self.stick,
            XrControllerInputType::AorX => self.a_or_x,
            XrControllerInputType::BorY => self.b_or_y,
            XrControllerInputType::Other(_) => self.other,
        }
    }

    /// The same threshold for every role.
    pub fn uniform(threshold: u32) -> (thresholds: InputThresholds)
        ensures
            forall|input: XrControllerInputType| #[trigger] thresholds.of(input) == threshold,
    {
        InputThresholds {
            trigger: threshold,
            grip: threshold,
            pad: threshold,
            stick: threshold,
            a_or_x: threshold,
            b_or_y: threshold,
            other: threshold,
        }
    }
}

impl AxisThresholds {
    pub open spec fn of(self, axis: XrControllerAxisType) -> u32 {
        match axis {
            XrControllerAxisType::PadX => self.pad_x,
            XrControllerAxisType::PadY => self.pad_y,
            XrControllerAxisType::StickX => self.stick_x,
            XrControllerAxisType::StickY => self.stick_y,
            XrControllerAxisType::Other(_) => self.other,
        }
    }

    /// The same threshold for every role.
    pub fn uniform(threshold: u32) -> (thresholds: AxisThresholds)
        ensures
            forall|axis: XrControllerAxisType| #[trigger] thresholds.of(axis) == threshold,
    {
        AxisThresholds {
            pad_x: threshold,
            pad_y: threshold,
            stick_x: threshold,
            stick_y: threshold,
            other: threshold,
        }
    }
}

impl Default for XrControllerSettings {
    /// A hundredth of full scale on every channel.
    fn default() -> (settings: XrControllerSettings)
        ensures
            forall|channel: AnalogChannel| #[trigger]
                settings.threshold_of(channel) == ANALOG_ONE / 100,
    {
        XrControllerSettings::uniform((ANALOG_ONE / 100) as u32)
    }
}

impl XrControllerSettings {
    /// The threshold of a channel.
    pub open spec fn threshold_of(self, channel: AnalogChannel) -> u32 {
        match channel {
            AnalogChannel::Touch(input) => self.touch.of(input),
            AnalogChannel::Press(input) => self.press.of(input),
            AnalogChannel::Axis(axis) => self.axis.of(axis),
        }
    }

    /// The same threshold for every channel and role.
    pub fn uniform(threshold: u32) -> (settings: XrControllerSettings)
        ensures
            forall|channel: AnalogChannel| #[trigger] settings.threshold_of(channel) == threshold,
    {
        XrControllerSettings {
            touch: InputThresholds::uniform(threshold),
            press: InputThresholds::uniform(threshold),
            axis: AxisThresholds::uniform(threshold),
        }
    }

    pub fn threshold(&self, channel: AnalogChannel) -> (threshold: u32)
        ensures
            threshold == self.threshold_of(channel),
    {
        match channel {
            AnalogChannel::Touch(input) => match input {
                XrControllerInputType::Trigger => self.touch.trigger,
                XrControllerInputType::Grip => self.touch.grip,
                XrControllerInputType::Pad => self.touch.pad,
                XrControllerInputType::Stick => self.touch.stick,
                XrControllerInputType::AorX => self.touch.a_or_x,
                XrControllerInputType::BorY => self.touch.b_or_y,
                XrControllerInputType::Other(_) => self.touch.other,
            },
            AnalogChannel::Press(input) => match input {
                XrControllerInputType::Trigger => self.press.trigger,
                XrControllerInputType::Grip => self.press.grip,
                XrControllerInputType::Pad => self.press.pad,
                XrControllerInputType::Stick => self.press.stick,
                XrControllerInputType::AorX => self.press.a_or_x,
                XrControllerInputType::BorY => self.press.b_or_y,
                XrControllerInputType::Other(_) => self.press.other,
            },
            AnalogChannel::Axis(axis) => match axis {
                XrControllerAxisType::PadX => self.axis.pad_x,
                XrControllerAxisType::PadY => self.axis.pad_y,
                XrControllerAxisType::StickX => self.axis.stick_x,
                XrControllerAxisType::StickY => self.axis.stick_y,
                XrControllerAxisType::Other(_) => self.axis.other,
            },
        }
    }
}

/// The value last reported on a channel. A channel that never reported
/// anything reads as zero, its position at rest.
pub open spec fn reading_of(analog: Map<AnalogKey, i32>, key: AnalogKey) -> i32 {
    if analog.contains_key(key) {
        analog[key]
    } else {
        0
    }
}

/// Whether `new` is further than `threshold` from `old`.
pub open spec fn changed(new: i32, old: i32, threshold: u32) -> bool {
    new - old > threshold || old - new > threshold
}

/// See [`changed`].
pub fn exceeds(new: i32, old: i32, threshold: u32) -> (r: bool)
    ensures
        r == changed(new, old, threshold),
{
    let delta: i64 = new as i64 - old as i64;
    delta > threshold as i64 || -delta > threshold as i64
}

spec fn entries_map(entries: Seq<(AnalogKey, i32)>) -> Map<AnalogKey, i32>
    decreases entries.len(),
{
    if entries.len() == 0 {
        Map::empty()
    } else {
        entries_map(entries.drop_last()).insert(entries.last().0, entries.last().1)
    }
}

proof fn lemma_entries_absent(entries: Seq<(AnalogKey, i32)>, key: AnalogKey)
    requires
        forall|j: int| 0 <= j < entries.len() ==> (#[trigger] entries[j]).0 != key,
    ensures
        !entries_map(entries).contains_key(key),
    decreases entries.len(),
{
    if entries.len() > 0 {
        assert(entries.last() == entries[entries.len() - 1]);
        assert forall|j: int| 0 <= j < entries.drop_last().len() implies (
        #[trigger] entries.drop_last()[j]).0 != key by {
            assert(entries.drop_last()[j] == entries[j]);
        }
        lemma_entries_absent(entries.drop_last(), key);
    }
}

proof fn lemma_entries_found(entries: Seq<(AnalogKey, i32)>, i: int, key: AnalogKey)
    requires
        0 <= i < entries.len(),
        entries[i].0 == key,
        forall|j: int| i < j < entries.len() ==> (#[trigger] entries[j]).0 != key,
    ensures
        entries_map(entries).contains_key(key),
        entries_map(entries)[key] == entries[i].1,
    decreases entries.len(),
{
    if i < entries.len() - 1 {
        assert(entries.last() == entries[entries.len() - 1]);
        assert(entries.drop_last()[i] == entries[i]);
        assert forall|j: int| i < j < entries.drop_last().len() implies (
        #[trigger] entries.drop_last()[j]).0 != key by {
            assert(entries.drop_last()[j] == entries[j]);
        }
        lemma_entries_found(entries.drop_last(), i, key);
    }
}

proof fn lemma_entries_update(entries: Seq<(AnalogKey, i32)>, i: int, key: AnalogKey, value: i32)
    requires
        0 <= i < entries.len(),
        entries[i].0 == key,
        forall|j: int| i < j < entries.len() ==> (#[trigger] entries[j]).0 != key,
    ensures
        entries_map(entries.update(i, (key, value))) == entries_map(entries).insert(key, value),
    decreases entries.len(),
{
    let updated = entries.update(i, (key, value));
    if i == entries.len() - 1 {
        assert(updated.drop_last() =~= entries.drop_last());
        assert(entries_map(updated) =~= entries_map(entries).insert(key, value));
    } else {
        assert(entries.last() == entries[entries.len() - 1]);
        assert(entries.drop_last()[i] == entries[i]);
        assert forall|j: int| i < j < entries.drop_last().len() implies (
        #[trigger] entries.drop_last()[j]).0 != key by {
            assert(entries.drop_last()[j] == entries[j]);
        }
        lemma_entries_update(entries.drop_last(), i, key, value);
        assert(updated.drop_last() =~= entries.drop_last().update(i, (key, value)));
        assert(updated.last() == entries.last());
        assert(entries_map(updated) =~= entries_map(entries).insert(key, value));
    }
}

/// The analog value last reported on each channel of each controller.
#[derive(Clone, Debug)]
pub struct AnalogInput {
    entries: Vec<(AnalogKey, i32)>,
}

impl View for AnalogInput {
    type V = Map<AnalogKey, i32>;

    closed spec fn view(&self) -> Map<AnalogKey, i32> {
        entries_map(self.entries@)
    }
}

impl AnalogInput {
    pub fn new() -> (analog: AnalogInput)
        ensures
            analog@ == Map::<AnalogKey, i32>::empty(),
    {
        AnalogInput { entries: Vec::new() }
    }

    /// The value last reported on the channel, zero if none was.
    pub fn get(&self, key: AnalogKey) -> (value: i32)
        ensures
            value == reading_of(self@, key),
    {
        let mut i: usize = self.entries.len();
        while i > 0
            invariant
                i <= self.entries@.len(),
                forall|j: int|
                    i <= j < self.entries@.len() ==> (#[trigger] self.entries@[j]).0 != key,
            decreases i,
        {
            i -= 1;
            if self.entries[i].0 == key {
                proof {
                    lemma_entries_found(self.entries@, i as int, key);
                }
                return self.entries[i].1;
            }
        }
        proof {
            lemma_entries_absent(self.entries@, key);
        }
        0
    }

    /// Records `value` as the value last reported on the channel.
    pub fn set(&mut self, key: AnalogKey, value: i32)
        ensures
            final(self)@ == old(self)@.insert(key, value),
    {
        let mut i: usize = self.entries.len();
        while i > 0
            invariant
                i <= self.entries@.len(),
                self.entries@ == old(self).entries@,
                forall|j: int|
                    i <= j < self.entries@.len() ==> (#[trigger] self.entries@[j]).0 != key,
            decreases i,
        {
            i -= 1;
            if self.entries[i].0 == key {
                proof {
                    lemma_entries_update(self.entries@, i as int, key, value);
                }
                self.entries[i] = (key, value);
                return ;
            }
        }
        self.entries.push((key, value));
        assert(self.entries@.drop_last() =~= old(self).entries@);
    }
}

/// What the decoding of a gamepad reads and writes: the value last reported
/// on each channel, and the events so far.
pub struct InputView {
    pub analog: Map<AnalogKey, i32>,
    pub events: Seq<XrControllerEvent>,
}

/// The channel that tells how far the button at place `i` is touched.
pub open spec fn touch_key(controller: XrController, i: int) -> AnalogKey {
    AnalogKey { controller, channel: AnalogChannel::Touch(input_type_of(i)) }
}

/// The channel that tells how far the button at place `i` is pressed.
pub open spec fn press_key(controller: XrController, i: int) -> AnalogKey {
    AnalogKey { controller, channel: AnalogChannel::Press(input_type_of(i)) }
}

/// The channel of the axis at place `i`.
pub open spec fn axis_key(controller: XrController, i: int) -> AnalogKey {
    AnalogKey { controller, channel: AnalogChannel::Axis(axis_type_of(i)) }
}

/// The event that reports `value` on the channel `key`.
pub open spec fn change_event(key: AnalogKey, value: i32) -> XrControllerEvent {
    match key.channel {
        AnalogChannel::Touch(input) => XrControllerEvent::TouchChanged {
            controller: key.controller,
            input,
            value,
        },
        AnalogChannel::Press(input) => XrControllerEvent::PressChanged {
            controller: key.controller,
            input,
            value,
        },
        AnalogChannel::Axis(axis) => XrControllerEvent::AxisChanged {
            controller: key.controller,
            axis,
            value,
        },
    }
}

/// One value on one channel. A value further than the channel's threshold
/// from the value last reported is reported, and is from then on the value
/// last reported. Any other value changes nothing.
pub open spec fn channel_step(
    state: InputView,
    settings: XrControllerSettings,
    key: AnalogKey,
    value: i32,
) -> InputView {
    if changed(value, reading_of(state.analog, key), settings.threshold_of(key.channel)) {
        InputView {
            analog: state.analog.insert(key, value),
            events: state.events.push(change_event(key, value)),
        }
    } else {
        state
    }
}

/// The first `n` buttons, in order. A button's value goes to its touch
/// channel and then to its press channel; a slot without a button is passed
/// over.
pub open spec fn buttons_walk(
    state: InputView,
    controller: XrController,
    settings: XrControllerSettings,
    buttons: Seq<Option<i32>>,
    n: nat,
) -> InputView
    decreases n,
{
    if n == 0 {
        state
    } else {
        let inner = buttons_walk(state, controller, settings, buttons, (n - 1) as nat);
        match buttons[n - 1] {
            Some(value) => channel_step(
                channel_step(inner, settings, touch_key(controller, n - 1), value),
                settings,
                press_key(controller, n - 1),
                value,
            ),
            None => inner,
        }
    }
}

/// The first `n` axes, in order.
pub open spec fn axes_walk(
    state: InputView,
    controller: XrController,
    settings: XrControllerSettings,
    axes: Seq<i32>,
    n: nat,
) -> InputView
    decreases n,
{
    if n == 0 {
        state
    } else {
        let inner = axes_walk(state, controller, settings, axes, (n - 1) as nat);
        channel_step(inner, settings, axis_key(controller, n - 1), axes[n - 1])
    }
}

/// The state of a gamepad decoded: its buttons, then its axes. The result is
/// the values last reported and the events, the new ones behind those that
/// were there.
pub open spec fn input_handled(
    analog: Map<AnalogKey, i32>,
    events: Seq<XrControllerEvent>,
    controller: XrController,
    gamepad: Gamepad,
    settings: XrControllerSettings,
) -> InputView {
    axes_walk(
        buttons_walk(
            InputView { analog, events },
            controller,
            settings,
            gamepad.buttons@,
            gamepad.buttons@.len(),
        ),
        controller,
        settings,
        gamepad.axes@,
        gamepad.axes@.len(),
    )
}

/// See [`channel_step`].
fn filter_channel(
    key: AnalogKey,
    value: i32,
    events: &mut Vec<XrControllerEvent>,
    analog: &mut AnalogInput,
    settings: &XrControllerSettings,
)
    ensures
        (InputView { analog: final(analog)@, events: final(events)@ }) == channel_step(
            InputView { analog: old(analog)@, events: old(events)@ },
            *settings,
            key,
            value,
        ),
{
    let old_value = analog.get(key);
    if exceeds(value, old_value, settings.threshold(key.channel)) {
        let event = match key.channel {
            AnalogChannel::Touch(input) => XrControllerEvent::TouchChanged {
                controller: key.controller,
                input,
                value,
            },
            AnalogChannel::Press(input) => XrControllerEvent::PressChanged {
                controller: key.controller,
                input,
                value,
            },
            AnalogChannel::Axis(axis) => XrControllerEvent::AxisChanged {
                controller: key.controller,
                axis,
                value,
            },
        };
        events.push(event);
        analog.set(key, value);
    }
}

/// Decodes the state of a controller's gamepad into change events: see
/// [`input_handled`]. The events are appended to `events`.
pub fn handle_input(
    xr_controller: XrController,
    gamepad: &Gamepad,
    events: &mut Vec<XrControllerEvent>,
    analog: &mut AnalogInput,
    settings: &XrControllerSettings,
)
    ensures
        (InputView { analog: final(analog)@, events: final(events)@ }) == input_handled(
            old(analog)@,
            old(events)@,
            xr_controller,
            *gamepad,
            *settings,
        ),
        final(events)@.len() >= old(events)@.len(),
        final(events)@.subrange(0, old(events)@.len() as int) == old(events)@,
        forall|j: int|
            old(events)@.len() <= j < final(events)@.len() ==> passes(
                old(analog)@,
                *settings,
                xr_controller,
                *gamepad,
                #[trigger] final(events)@[j],
            ),
        forall|key: AnalogKey| #[trigger]
            reading_of(final(analog)@, key) == settled(
                reading_of(old(analog)@, key),
                gamepad_value(xr_controller, *gamepad, key),
                settings.threshold_of(key.channel),
            ),
{
    proof {
        lemma_events_pass_threshold(old(analog)@, old(events)@, xr_controller, *gamepad, *settings);
    }
    let mut i: usize = 0;
    while i < gamepad.buttons.len()
        invariant
            i <= gamepad.buttons@.len(),
            (InputView { analog: analog@, events: events@ }) == buttons_walk(
                InputView { analog: old(analog)@, events: old(events)@ },
                xr_controller,
                *settings,
                gamepad.buttons@,
                i as nat,
            ),
        decreases gamepad.buttons.len() - i,
    {
        if let Some(value) = gamepad.buttons[i] {
            let input = index_to_input_type(i);
            filter_channel(
                AnalogKey { controller: xr_controller, channel: AnalogChannel::Touch(input) },
                value,
                events,
                analog,
                settings,
            );
            filter_channel(
                AnalogKey { controller: xr_controller, channel: AnalogChannel::Press(input) },
                value,
                events,
                analog,
                settings,
            );
        }
        i += 1;
    }
    let ghost buttons_done = InputView { analog: analog@, events: events@ };
    let mut i: usize = 0;
    while i < gamepad.axes.len()
        invariant
            i <= gamepad.axes@.len(),
            (InputView { analog: analog@, events: events@ }) == axes_walk(
                buttons_done,
                xr_controller,
                *settings,
                gamepad.axes@,
                i as nat,
            ),
        decreases gamepad.axes.len() - i,
    {
        let axis = index_to_axis_type(i);
        filter_channel(
            AnalogKey { controller: xr_controller, channel: AnalogChannel::Axis(axis) },
            gamepad.axes[i],
            events,
            analog,
            settings,
        );
        i += 1;
    }
    proof {
        let handled = input_handled(
            old(analog)@,
            old(events)@,
            xr_controller,
            *gamepad,
            *settings,
        );
        assert(analog@ == handled.analog);
        assert(events@ == handled.events);
    }
}

/// The place of the button with the given role.
pub open spec fn input_index(input: XrControllerInputType) -> int {
    match input {
        XrControllerInputType::Trigger => 0,
        XrControllerInputType::Grip => 1,
        XrControllerInputType::Pad => 2,
        XrControllerInputType::Stick => 3,
        XrControllerInputType::AorX => 4,
        XrControllerInputType::BorY => 5,
        XrControllerInputType::Other(i) => i as int,
    }
}

/// The place of the axis with the given role.
pub open spec fn axis_index(axis: XrControllerAxisType) -> int {
    match axis {
        XrControllerAxisType::PadX => 0,
        XrControllerAxisType::PadY => 1,
        XrControllerAxisType::StickX => 2,
        XrControllerAxisType::StickY => 3,
        XrControllerAxisType::Other(i) => i as int,
    }
}

/// The value of the button with the given role among the first `n` slots,
/// if there is such a button.
pub open spec fn button_value(
    buttons: Seq<Option<i32>>,
    n: int,
    input: XrControllerInputType,
) -> Option<i32> {
    let i = input_index(input);
    if 0 <= i < n && i < buttons.len() && input_type_of(i) == input {
        buttons[i]
    } else {
        None
    }
}

/// The value of the axis with the given role among the first `n` axes, if
/// there is such an axis.
pub open spec fn axis_value(axes: Seq<i32>, n: int, axis: XrControllerAxisType) -> Option<i32> {
    let i = axis_index(axis);
    if 0 <= i < n && i < axes.len() && axis_type_of(i) == axis {
        Some(axes[i])
    } else {
        None
    }
}

/// The value that the first `buttons_seen` buttons and the first `axes_seen`
/// axes of a controller's gamepad hold for the channel `key`, if they hold
/// one.
pub open spec fn held(
    controller: XrController,
    buttons: Seq<Option<i32>>,
    buttons_seen: int,
    axes: Seq<i32>,
    axes_seen: int,
    key: AnalogKey,
) -> Option<i32> {
    if key.controller != controller {
        None
    } else {
        match key.channel {
            AnalogChannel::Touch(input) => button_value(buttons, buttons_seen, input),
            AnalogChannel::Press(input) => button_value(buttons, buttons_seen, input),
            AnalogChannel::Axis(axis) => axis_value(axes, axes_seen, axis),
        }
    }
}

/// The value that a controller's gamepad holds for the channel `key`, if it
/// holds one.
pub open spec fn gamepad_value(
    controller: XrController,
    gamepad: Gamepad,
    key: AnalogKey,
) -> Option<i32> {
    held(
        controller,
        gamepad.buttons@,
        gamepad.buttons@.len() as int,
        gamepad.axes@,
        gamepad.axes@.len() as int,
        key,
    )
}

/// The channel and the value that a change event reports.
pub open spec fn event_channel(event: XrControllerEvent) -> Option<(AnalogKey, i32)> {
    match event {
        XrControllerEvent::Tracking { .. } => None,
        XrControllerEvent::TouchChanged { controller, input, value } => Some(
            (AnalogKey { controller, channel: AnalogChannel::Touch(input) }, value),
        ),
        XrControllerEvent::PressChanged { controller, input, value } => Some(
            (AnalogKey { controller, channel: AnalogChannel::Press(input) }, value),
        ),
        XrControllerEvent::AxisChanged { controller, axis, value } => Some(
            (AnalogKey { controller, channel: AnalogChannel::Axis(axis) }, value),
        ),
    }
}

/// The value last reported on a channel after the gamepad held `value` for
/// it: that value if it passed the threshold, else the one before.
pub open spec fn settled(old: i32, value: Option<i32>, threshold: u32) -> i32 {
    match value {
        Some(v) => if changed(v, old, threshold) {
            v
        } else {
            old
        },
        None => old,
    }
}

/// Whether `event` stands in `all` at position `from` or later.
pub open spec fn has_event(
    all: Seq<XrControllerEvent>,
    from: int,
    event: XrControllerEvent,
) -> bool {
    exists|j: int| from <= j < all.len() && #[trigger] all[j] == event
}

/// Whether `event` reports a value that the gamepad holds for a channel of
/// the controller and that is further than the channel's threshold from the
/// value that `analog` has for it.
pub open spec fn passes(
    analog: Map<AnalogKey, i32>,
    settings: XrControllerSettings,
    controller: XrController,
    gamepad: Gamepad,
    event: XrControllerEvent,
) -> bool {
    event_channel(event) matches Some(pair) && gamepad_value(controller, gamepad, pair.0) == Some(
        pair.1,
    ) && changed(pair.1, reading_of(analog, pair.0), settings.threshold_of(pair.0.channel))
}

spec fn fed_value(fed: Map<AnalogKey, i32>, key: AnalogKey) -> Option<i32> {
    if fed.contains_key(key) {
        Some(fed[key])
    } else {
        None
    }
}

spec fn passes_fed(
    analog: Map<AnalogKey, i32>,
    settings: XrControllerSettings,
    fed: Map<AnalogKey, i32>,
    event: XrControllerEvent,
) -> bool {
    event_channel(event) matches Some(pair) && fed_value(fed, pair.0) == Some(pair.1) && changed(
        pair.1,
        reading_of(analog, pair.0),
        settings.threshold_of(pair.0.channel),
    )
}

// What holds of a walk over the channels in `fed`, each fed once, from the
// values `analog` and the events `events`.
spec fn walk_inv(
    analog: Map<AnalogKey, i32>,
    events: Seq<XrControllerEvent>,
    state: InputView,
    settings: XrControllerSettings,
    fed: Map<AnalogKey, i32>,
) -> bool {
    &&& state.events.len() >= events.len()
    &&& forall|j: int| 0 <= j < events.len() ==> #[trigger] state.events[j] == events[j]
    &&& forall|j: int|
        events.len() <= j < state.events.len() ==> passes_fed(
            analog,
            settings,
            fed,
            #[trigger] state.events[j],
        )
    &&& forall|key: AnalogKey| #[trigger]
        fed.contains_key(key) && changed(
            fed[key],
            reading_of(analog, key),
            settings.threshold_of(key.channel),
        ) ==> has_event(state.events, events.len() as int, change_event(key, fed[key]))
    &&& forall|key: AnalogKey| #[trigger]
        reading_of(state.analog, key) == settled(
            reading_of(analog, key),
            fed_value(fed, key),
            settings.threshold_of(key.channel),
        )
}

proof fn lemma_event_channel(key: AnalogKey, value: i32)
    ensures
        event_channel(change_event(key, value)) == Some((key, value)),
{
}

proof fn lemma_channel_step(
    analog: Map<AnalogKey, i32>,
    events: Seq<XrControllerEvent>,
    state: InputView,
    settings: XrControllerSettings,
    fed: Map<AnalogKey, i32>,
    key: AnalogKey,
    value: i32,
)
    requires
        walk_inv(analog, events, state, settings, fed),
        !fed.contains_key(key),
    ensures
        walk_inv(
            analog,
            events,
            channel_step(state, settings, key, value),
            settings,
            fed.insert(key, value),
        ),
{
    let next = channel_step(state, settings, key, value);
    let fed2 = fed.insert(key, value);
    let threshold = settings.threshold_of(key.channel);
    assert(reading_of(state.analog, key) == reading_of(analog, key));
    lemma_event_channel(key, value);
    assert forall|j: int| events.len() <= j < next.events.len() implies passes_fed(
        analog,
        settings,
        fed2,
        #[trigger] next.events[j],
    ) by {
        if j < state.events.len() {
            assert(passes_fed(analog, settings, fed, state.events[j]));
            assert(next.events[j] == state.events[j]);
        }
    }
    assert forall|other: AnalogKey| #[trigger]
        fed2.contains_key(other) && changed(
            fed2[other],
            reading_of(analog, other),
            settings.threshold_of(other.channel),
        ) implies has_event(next.events, events.len() as int, change_event(other, fed2[other])) by {
        if other == key {
            assert(next.events[state.events.len() as int] == change_event(key, value));
        } else {
            assert(fed.contains_key(other));
            let j = choose|j: int|
                events.len() <= j < state.events.len() && #[trigger] state.events[j]
                    == change_event(other, fed[other]);
            assert(next.events[j] == state.events[j]);
        }
    }
    assert forall|other: AnalogKey| #[trigger]
        reading_of(next.analog, other) == settled(
            reading_of(analog, other),
            fed_value(fed2, other),
            settings.threshold_of(other.channel),
        ) by {
        assert(reading_of(state.analog, other) == settled(
            reading_of(analog, other),
            fed_value(fed, other),
            settings.threshold_of(other.channel),
        ));
    }
}

spec fn buttons_fed(
    fed: Map<AnalogKey, i32>,
    controller: XrController,
    buttons: Seq<Option<i32>>,
    n: nat,
) -> Map<AnalogKey, i32>
    decreases n,
{
    if n == 0 {
        fed
    } else {
        let inner = buttons_fed(fed, controller, buttons, (n - 1) as nat);
        match buttons[n - 1] {
            Some(value) => inner.insert(touch_key(controller, n - 1), value).insert(
                press_key(controller, n - 1),
                value,
            ),
            None => inner,
        }
    }
}

spec fn axes_fed(fed: Map<AnalogKey, i32>, controller: XrController, axes: Seq<i32>, n: nat) -> Map<
    AnalogKey,
    i32,
>
    decreases n,
{
    if n == 0 {
        fed
    } else {
        axes_fed(fed, controller, axes, (n - 1) as nat).insert(
            axis_key(controller, n - 1),
            axes[n - 1],
        )
    }
}

proof fn lemma_buttons_fed(controller: XrController, buttons: Seq<Option<i32>>, n: nat)
    requires
        n <= buttons.len() <= usize::MAX,
    ensures
        forall|key: AnalogKey| #[trigger]
            fed_value(buttons_fed(Map::empty(), controller, buttons, n), key) == held(
                controller,
                buttons,
                n as int,
                Seq::<i32>::empty(),
                0,
                key,
            ),
    decreases n,
{
    if n > 0 {
        lemma_buttons_fed(controller, buttons, (n - 1) as nat);
        let inner = buttons_fed(Map::empty(), controller, buttons, (n - 1) as nat);
        let fed = buttons_fed(Map::empty(), controller, buttons, n);
        assert forall|key: AnalogKey| #[trigger]
            fed_value(fed, key) == held(
            controller,
            buttons,
            n as int,
            Seq::<i32>::empty(),
            0,
            key,
        ) by {
            assert(fed_value(inner, key) == held(
                controller,
                buttons,
                n - 1,
                Seq::<i32>::empty(),
                0,
                key,
            ));
            assert(input_index(input_type_of(n - 1)) == n - 1);
        }
    } else {
        assert forall|key: AnalogKey| #[trigger]
            fed_value(Map::<AnalogKey, i32>::empty(), key) == held(
                controller,
                buttons,
                0,
                Seq::<i32>::empty(),
                0,
                key,
            ) by {}
    }
}

proof fn lemma_axes_fed(
    controller: XrController,
    buttons: Seq<Option<i32>>,
    axes: Seq<i32>,
    n: nat,
)
    requires
        buttons.len() <= usize::MAX,
        n <= axes.len() <= usize::MAX,
    ensures
        forall|key: AnalogKey| #[trigger]
            fed_value(
                axes_fed(
                    buttons_fed(Map::empty(), controller, buttons, buttons.len()),
                    controller,
                    axes,
                    n,
                ),
                key,
            ) == held(controller, buttons, buttons.len() as int, axes, n as int, key),
    decreases n,
{
    let start = buttons_fed(Map::empty(), controller, buttons, buttons.len());
    lemma_buttons_fed(controller, buttons, buttons.len());
    if n > 0 {
        lemma_axes_fed(controller, buttons, axes, (n - 1) as nat);
        let inner = axes_fed(start, controller, axes, (n - 1) as nat);
        let fed = axes_fed(start, controller, axes, n);
        assert forall|key: AnalogKey| #[trigger]
            fed_value(fed, key) == held(
                controller,
                buttons,
                buttons.len() as int,
                axes,
                n as int,
                key,
            ) by {
            assert(fed_value(inner, key) == held(
                controller,
                buttons,
                buttons.len() as int,
                axes,
                n - 1,
                key,
            ));
            assert(axis_index(axis_type_of(n - 1)) == n - 1);
        }
    } else {
        assert forall|key: AnalogKey| #[trigger]
            fed_value(start, key) == held(
                controller,
                buttons,
                buttons.len() as int,
                axes,
                0,
                key,
            ) by {
            assert(fed_value(start, key) == held(
                controller,
                buttons,
                buttons.len() as int,
                Seq::<i32>::empty(),
                0,
                key,
            ));
        }
    }
}

proof fn lemma_buttons_walk(
    analog: Map<AnalogKey, i32>,
    events: Seq<XrControllerEvent>,
    controller: XrController,
    settings: XrControllerSettings,
    buttons: Seq<Option<i32>>,
    n: nat,
)
    requires
        n <= buttons.len() <= usize::MAX,
    ensures
        walk_inv(
            analog,
            events,
            buttons_walk(InputView { analog, events }, controller, settings, buttons, n),
            settings,
            buttons_fed(Map::empty(), controller, buttons, n),
        ),
    decreases n,
{
    if n > 0 {
        let m = (n - 1) as nat;
        lemma_buttons_walk(analog, events, controller, settings, buttons, m);
        lemma_buttons_fed(controller, buttons, m);
        let inner = buttons_walk(InputView { analog, events }, controller, settings, buttons, m);
        let fed = buttons_fed(Map::empty(), controller, buttons, m);
        assert(input_index(input_type_of(m as int)) == m);
        let touch = touch_key(controller, m as int);
        let press = press_key(controller, m as int);
        assert(fed_value(fed, touch) == held(
            controller,
            buttons,
            m as int,
            Seq::<i32>::empty(),
            0,
            touch,
        ));
        assert(fed_value(fed, press) == held(
            controller,
            buttons,
            m as int,
            Seq::<i32>::empty(),
            0,
            press,
        ));
        if let Some(value) = buttons[m as int] {
            lemma_channel_step(analog, events, inner, settings, fed, touch, value);
            lemma_channel_step(
                analog,
                events,
                channel_step(inner, settings, touch, value),
                settings,
                fed.insert(touch, value),
                press,
                value,
            );
        }
    } else {
        assert(walk_inv(analog, events, InputView { analog, events }, settings, Map::empty()));
    }
}

proof fn lemma_axes_walk(
    analog: Map<AnalogKey, i32>,
    events: Seq<XrControllerEvent>,
    controller: XrController,
    settings: XrControllerSettings,
    buttons: Seq<Option<i32>>,
    axes: Seq<i32>,
    n: nat,
)
    requires
        buttons.len() <= usize::MAX,
        n <= axes.len() <= usize::MAX,
    ensures
        walk_inv(
            analog,
            events,
            axes_walk(
                buttons_walk(
                    InputView { analog, events },
                    controller,
                    settings,
                    buttons,
                    buttons.len(),
                ),
                controller,
                settings,
                axes,
                n,
            ),
            settings,
            axes_fed(
                buttons_fed(Map::empty(), controller, buttons, buttons.len()),
                controller,
                axes,
                n,
            ),
        ),
    decreases n,
{
    let start = buttons_walk(
        InputView { analog, events },
        controller,
        settings,
        buttons,
        buttons.len(),
    );
    let start_fed = buttons_fed(Map::empty(), controller, buttons, buttons.len());
    if n > 0 {
        let m = (n - 1) as nat;
        lemma_axes_walk(analog, events, controller, settings, buttons, axes, m);
        lemma_axes_fed(controller, buttons, axes, m);
        let inner = axes_walk(start, controller, settings, axes, m);
        let fed = axes_fed(start_fed, controller, axes, m);
        assert(axis_index(axis_type_of(m as int)) == m);
        let key = axis_key(controller, m as int);
        assert(fed_value(fed, key) == held(
            controller,
            buttons,
            buttons.len() as int,
            axes,
            m as int,
            key,
        ));
        lemma_channel_step(analog, events, inner, settings, fed, key, axes[m as int]);
    } else {
        lemma_buttons_walk(analog, events, controller, settings, buttons, buttons.len());
    }
}

/// Changes are reported exactly when they pass the threshold. The events
/// that were there stay in front. Every event behind them reports a value
/// that the gamepad holds and that is further than the channel's threshold
/// from the value last reported on the channel; every such value of the
/// gamepad has its event; and the value last reported on a channel
/// afterwards is the gamepad's where that was reported, the old one
/// elsewhere.
pub proof fn lemma_events_pass_threshold(
    analog: Map<AnalogKey, i32>,
    events: Seq<XrControllerEvent>,
    controller: XrController,
    gamepad: Gamepad,
    settings: XrControllerSettings,
)
    ensures
        ({
            let handled = input_handled(analog, events, controller, gamepad, settings);
            &&& handled.events.len() >= events.len()
            &&& handled.events.subrange(0, events.len() as int) == events
            &&& forall|j: int|
                events.len() <= j < handled.events.len() ==> passes(
                    analog,
                    settings,
                    controller,
                    gamepad,
                    #[trigger] handled.events[j],
                )
            &&& forall|key: AnalogKey|
                (#[trigger] gamepad_value(controller, gamepad, key)) matches Some(value) ==> (
                changed(value, reading_of(analog, key), settings.threshold_of(key.channel))
                    ==> has_event(handled.events, events.len() as int, change_event(key, value)))
            &&& forall|key: AnalogKey| #[trigger]
                reading_of(handled.analog, key) == settled(
                    reading_of(analog, key),
                    gamepad_value(controller, gamepad, key),
                    settings.threshold_of(key.channel),
                )
        }),
{
    let buttons = gamepad.buttons@;
    let axes = gamepad.axes@;
    let handled = input_handled(analog, events, controller, gamepad, settings);
    assert(buttons.len() == gamepad.buttons.len() && axes.len() == gamepad.axes.len());
    let fed = axes_fed(
        buttons_fed(Map::empty(), controller, buttons, buttons.len()),
        controller,
        axes,
        axes.len(),
    );
    lemma_axes_walk(analog, events, controller, settings, buttons, axes, axes.len());
    lemma_axes_fed(controller, buttons, axes, axes.len());
    assert(walk_inv(analog, events, handled, settings, fed));
    assert forall|key: AnalogKey| #[trigger]
        fed_value(fed, key) == gamepad_value(controller, gamepad, key) by {}
    assert(handled.events.subrange(0, events.len() as int) =~= events);
    assert forall|j: int| events.len() <= j < handled.events.len() implies passes(
        analog,
        settings,
        controller,
        gamepad,
        #[trigger] handled.events[j],
    ) by {
        assert(passes_fed(analog, settings, fed, handled.events[j]));
        let pair = event_channel(handled.events[j])->0;
        assert(fed_value(fed, pair.0) == gamepad_value(controller, gamepad, pair.0));
    }
    assert forall|key: AnalogKey|
        (#[trigger] gamepad_value(controller, gamepad, key)) is Some && changed(
            gamepad_value(controller, gamepad, key)->0,
            reading_of(analog, key),
            settings.threshold_of(key.channel),
        ) implies has_event(
        handled.events,
        events.len() as int,
        change_event(key, gamepad_value(controller, gamepad, key)->0),
    ) by {
        assert(fed_value(fed, key) == gamepad_value(controller, gamepad, key));
        assert(fed.contains_key(key));
    }
    assert forall|key: AnalogKey| #[trigger]
        reading_of(handled.analog, key) == settled(
            reading_of(analog, key),
            gamepad_value(controller, gamepad, key),
            settings.threshold_of(key.channel),
        ) by {
        assert(fed_value(fed, key) == gamepad_value(controller, gamepad, key));
    }
}

proof fn lemma_silent_buttons(
    analog: Map<AnalogKey, i32>,
    events: Seq<XrControllerEvent>,
    controller: XrController,
    settings: XrControllerSettings,
    buttons: Seq<Option<i32>>,
    n: nat,
)
    requires
        n <= buttons.len(),
        forall|i: int|
            0 <= i < n && buttons[i] is Some ==> !changed(
                buttons[i]->0,
                reading_of(analog, #[trigger] touch_key(controller, i)),
                settings.threshold_of(touch_key(controller, i).channel),
            ),
        forall|i: int|
            0 <= i < n && buttons[i] is Some ==> !changed(
                buttons[i]->0,
                reading_of(analog, #[trigger] press_key(controller, i)),
                settings.threshold_of(press_key(controller, i).channel),
            ),
    ensures
        buttons_walk(InputView { analog, events }, controller, settings, buttons, n) == (InputView {
            analog,
            events,
        }),
    decreases n,
{
    if n > 0 {
        lemma_silent_buttons(analog, events, controller, settings, buttons, (n - 1) as nat);
        let t = touch_key(controller, n - 1);
        let p = press_key(controller, n - 1);
    }
}

proof fn lemma_silent_axes(
    analog: Map<AnalogKey, i32>,
    events: Seq<XrControllerEvent>,
    controller: XrController,
    settings: XrControllerSettings,
    axes: Seq<i32>,
    n: nat,
)
    requires
        n <= axes.len(),
        forall|i: int|
            0 <= i < n ==> !changed(
                axes[i],
                reading_of(analog, #[trigger] axis_key(controller, i)),
                settings.threshold_of(axis_key(controller, i).channel),
            ),
    ensures
        axes_walk(InputView { analog, events }, controller, settings, axes, n) == (InputView {
            analog,
            events,
        }),
    decreases n,
{
    if n > 0 {
        lemma_silent_axes(analog, events, controller, settings, axes, (n - 1) as nat);
        let a = axis_key(controller, n - 1);
    }
}

/// The same state of a gamepad read twice in a row is silent the second
/// time: no event, and the values last reported stay.
pub proof fn lemma_repeated_reading_is_silent(
    analog: Map<AnalogKey, i32>,
    events: Seq<XrControllerEvent>,
    later: Seq<XrControllerEvent>,
    controller: XrController,
    gamepad: Gamepad,
    settings: XrControllerSettings,
)
    ensures
        ({
            let first = input_handled(analog, events, controller, gamepad, settings);
            input_handled(first.analog, later, controller, gamepad, settings) == (InputView {
                analog: first.analog,
                events: later,
            })
        }),
{
    let first = input_handled(analog, events, controller, gamepad, settings);
    let buttons = gamepad.buttons@;
    let axes = gamepad.axes@;
    lemma_events_pass_threshold(analog, events, controller, gamepad, settings);
    assert(buttons.len() == gamepad.buttons.len() && axes.len() == gamepad.axes.len());
    assert forall|i: int| 0 <= i < buttons.len() && buttons[i] is Some implies !changed(
        buttons[i]->0,
        reading_of(first.analog, #[trigger] touch_key(controller, i)),
        settings.threshold_of(touch_key(controller, i).channel),
    ) by {
        let key = touch_key(controller, i);
        assert(input_index(input_type_of(i)) == i);
        assert(gamepad_value(controller, gamepad, key) == buttons[i]);
        assert(reading_of(first.analog, key) == settled(
            reading_of(analog, key),
            gamepad_value(controller, gamepad, key),
            settings.threshold_of(key.channel),
        ));
    }
    assert forall|i: int| 0 <= i < buttons.len() && buttons[i] is Some implies !changed(
        buttons[i]->0,
        reading_of(first.analog, #[trigger] press_key(controller, i)),
        settings.threshold_of(press_key(controller, i).channel),
    ) by {
        let key = press_key(controller, i);
        assert(input_index(input_type_of(i)) == i);
        assert(gamepad_value(controller, gamepad, key) == buttons[i]);
        assert(reading_of(first.analog, key) == settled(
            reading_of(analog, key),
            gamepad_value(controller, gamepad, key),
            settings.threshold_of(key.channel),
        ));
    }
    assert forall|i: int| 0 <= i < axes.len() implies !changed(
        axes[i],
        reading_of(first.analog, #[trigger] axis_key(controller, i)),
        settings.threshold_of(axis_key(controller, i).channel),
    ) by {
        let key = axis_key(controller, i);
        assert(axis_index(axis_type_of(i)) == i);
        assert(gamepad_value(controller, gamepad, key) == Some(axes[i]));
        assert(reading_of(first.analog, key) == settled(
            reading_of(analog, key),
            gamepad_value(controller, gamepad, key),
            settings.threshold_of(key.channel),
        ));
    }
    lemma_silent_buttons(first.analog, later, controller, settings, buttons, buttons.len());
    lemma_silent_axes(first.analog, later, controller, settings, axes, axes.len());
}

} // verus!
