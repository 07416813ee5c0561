//! The comparison widget: its configuration, its state, and the state
//! machine that turns image, resize and pointer events into a new state and
//! the listener registrations that the host has to perform.

use vstd::prelude::*;
use vstd::string::*;

use crate::aspect::{resolve_height, resolved_height, AspectRatio, Ratio};
use crate::fixed::{Fixed, SCALE};
use crate::pointer::{
    lemma_normalized_in_unit_range, normalized, normalized_position, pointed_at, Point,
    PointerEvent,
};
use crate::regions::lemma_labels_hide_while_sliding;
use crate::style::text_value;
use crate::style::{
    create_styles, css_overrides, style_css, style_sheet_model, StyleSheet, StyleSheetModel,
};

verus! {

/// What the caller chooses when the widget is mounted.
#[derive(Debug)]
pub struct Config {
    /// Which image decides the container's proportions.
    pub aspect_ratio: AspectRatio,
    /// Whether the caller supplies the handle's content.
    pub custom_handle: bool,
    /// The handle's diameter in pixels.
    pub handle_size: u32,
    /// Whether the divider follows the pointer without a press.
    pub hover: bool,
    /// The source of the left image.
    pub left_image: String,
    /// The alternative text of the left image.
    pub left_image_alt: String,
    /// Inline CSS that overrides the left image's style.
    pub left_image_css: Option<String>,
    /// The label of the left image, if it has one.
    pub left_image_label: Option<String>,
    /// The source of the right image.
    pub right_image: String,
    /// The alternative text of the right image.
    pub right_image_alt: String,
    /// Inline CSS that overrides the right image's style.
    pub right_image_css: Option<String>,
    /// The label of the right image, if it has one.
    pub right_image_label: Option<String>,
    /// Whether the caller supplies a placeholder for the time before both
    /// images have loaded.
    pub skeleton: bool,
    /// The colour of the divider and of the handle.
    pub slider_line_color: String,
    /// The divider's thickness in pixels.
    pub slider_line_width: Fixed,
    /// The slider position at the start, between 0 and 1.
    pub slider_position: Fixed,
    /// Whether the divider moves up and down rather than left and right.
    pub vertical: bool,
}

/// Why a configuration is refused.
#[derive(Clone, Copy, Debug, PartialEq, Eq, Structural)]
pub enum ConfigError {
    /// The handle's size is zero.
    HandleSize,
    /// The slider line's width is negative.
    SliderLineWidth,
    /// The slider position is not between 0 and 1.
    SliderPosition,
}

impl Config {
    /// The handle has a size, the slider line's width is not negative and
    /// the slider position lies between 0 and 1.
    pub open spec fn is_valid(&self) -> bool {
        &&& self.handle_size >= 1
        &&& self.slider_line_width.raw >= 0
        &&& 0 <= self.slider_position.raw <= SCALE
    }

    /// The configuration for two images when the caller chooses nothing
    /// else: the taller image decides, the default handle of 40 pixels,
    /// press and drag, no alternative texts, overrides, labels or
    /// placeholder, a white line 2 pixels wide, the divider in the middle,
    /// moving left and right.
    pub fn new(left_image: &str, right_image: &str) -> (config: Config)
        ensures
            config.is_valid(),
            config.aspect_ratio == AspectRatio::Taller,
            !config.custom_handle,
            config.handle_size == 40,
            !config.hover,
            config.left_image@ == left_image@,
            config.left_image_alt@ == Seq::<char>::empty(),
            config.left_image_css is None,
            config.left_image_label is None,
            config.right_image@ == right_image@,
            config.right_image_alt@ == Seq::<char>::empty(),
            config.right_image_css is None,
            config.right_image_label is None,
            !config.skeleton,
            config.slider_line_color@ == "#ffffff"@,
            config.slider_line_width.raw == 2 * SCALE,
            config.slider_position.raw == SCALE / 2,
            !config.vertical,
    {
        Config {
            aspect_ratio: AspectRatio::Taller,
            custom_handle: false,
            handle_size: 40,
            hover: false,
            left_image: String::from_str(left_image),
            left_image_alt: String::new(),
            left_image_css: None,
            left_image_label: None,
            right_image: String::from_str(right_image),
            right_image_alt: String::new(),
            right_image_css: None,
            right_image_label: None,
            skeleton: false,
            slider_line_color: String::from_str("#ffffff"),
            slider_line_width: Fixed { raw: 2_000_000 },
            slider_position: Fixed { raw: 500_000 },
            vertical: false,
        }
    }

    /// The verdict on the configuration: the first choice that cannot
    /// stand, in the order handle size, line width, slider position.
    pub open spec fn validate_spec(&self) -> Result<(), ConfigError> {
        if self.handle_size == 0 {
            Err(ConfigError::HandleSize)
        } else if self.slider_line_width.raw < 0 {
            Err(ConfigError::SliderLineWidth)
        } else if !(0 <= self.slider_position.raw <= SCALE) {
            Err(ConfigError::SliderPosition)
        } else {
            Ok(())
        }
    }

    /// Checks the configuration, and names the first choice that cannot
    /// stand: the handle's size, then the line's width, then the position.
    pub fn validate(&self) -> (checked: Result<(), ConfigError>)
        ensures
            checked == self.validate_spec(),
            checked is Ok <==> self.is_valid(),
    {
        if self.handle_size == 0 {
            Err(ConfigError::HandleSize)
        } else if self.slider_line_width.raw < 0 {
            Err(ConfigError::SliderLineWidth)
        } else if self.slider_position.raw < 0 || self.slider_position.raw > SCALE {
            Err(ConfigError::SliderPosition)
        } else {
            Ok(())
        }
    }
}

/// One of the two images.
#[derive(Clone, Copy, Debug, PartialEq, Eq, Structural)]
pub enum Side {
    Left,
    Right,
}

/// The device that moves the divider.
#[derive(Clone, Copy, Debug, PartialEq, Eq, Structural)]
pub enum Modality {
    Mouse,
    Touch,
}

/// An event listener that the host registers for the widget: on the
/// container, or globally on the window.
#[derive(Clone, Copy, Debug, PartialEq, Eq, Structural)]
pub enum Listener {
    ContainerTouchStart,
    GlobalTouchEnd,
    ContainerMouseDown,
    GlobalMouseUp,
    ContainerMouseMove,
    ContainerMouseLeave,
    GlobalTouchMove,
    GlobalMouseMove,
}

/// The listeners that are registered. There is one flag for each listener
/// of the wiring, and one slot for the global move listener of an
/// interaction: at no time is there more than one of each.
#[derive(Clone, Copy, Debug, PartialEq, Eq, Structural)]
pub struct Listeners {
    pub touch_start: bool,
    pub touch_end: bool,
    pub mouse_down: bool,
    pub mouse_up: bool,
    pub hover_move: bool,
    pub mouse_leave: bool,
    pub moving: Option<Modality>,
}

/// What the host has to do after an event.
#[derive(Clone, Copy, Debug, PartialEq, Eq, Structural)]
pub enum Command {
    /// Register the listener.
    Register(Listener),
    /// Remove the listener's registration.
    Deregister(Listener),
    /// Suppress the browser's default handling of the event.
    PreventDefault,
    /// Tell the caller that the slider position has changed to this value.
    PositionChanged(Fixed),
}

/// A pointer event together with what the host reads when it arrives: the
/// page's scroll offset and the leading corner of the container's bounding
/// rectangle in the viewport.
#[derive(Clone, Copy, Debug, PartialEq, Eq, Structural)]
pub struct Sample {
    pub pointer: PointerEvent,
    pub scroll: Point,
    pub origin: Point,
}

/// What can happen to the widget.
#[derive(Clone, Copy, Debug, PartialEq, Eq, Structural)]
pub enum Event {
    /// The widget was mounted.
    Mounted,
    /// The widget is about to be unmounted.
    Unmounted,
    /// An image has loaded, with these natural dimensions.
    ImageLoaded { side: Side, natural_height: u32, natural_width: u32 },
    /// An image element was removed or is mounted anew.
    ImageRemoved { side: Side },
    /// The container was observed to have this width.
    Resized { width: Fixed },
    /// A touch started on the container.
    TouchStart(Sample),
    /// A touch moved, anywhere.
    TouchMove(Sample),
    /// A touch ended, anywhere.
    TouchEnd,
    /// A mouse button was pressed on the container.
    MouseDown,
    /// The mouse moved: over the container where the divider follows the
    /// pointer, anywhere during a drag.
    MouseMove(Sample),
    /// A mouse button was released, anywhere.
    MouseUp,
    /// The mouse left the container.
    MouseLeave,
}

/// The widget's state.
#[derive(Clone, Copy, Debug, PartialEq, Eq, Structural)]
pub struct State {
    /// Whether the widget is mounted.
    pub mounted: bool,
    /// Where the divider is, as a fraction of the container's extent.
    pub slider_position: Fixed,
    /// The container's observed width.
    pub container_width: Fixed,
    /// The container's height, resolved from its width.
    pub container_height: Fixed,
    /// Whether the left image has loaded.
    pub left_loaded: bool,
    /// Whether the right image has loaded.
    pub right_loaded: bool,
    /// The left image's proportions, once it has loaded with dimensions.
    pub left_ratio: Option<Ratio>,
    /// The right image's proportions, once it has loaded with dimensions.
    pub right_ratio: Option<Ratio>,
    /// Whether the divider is being moved.
    pub is_sliding: bool,
    /// The listeners that are registered.
    pub listeners: Listeners,
}

/// A state and the commands that led to it.
pub struct Outcome {
    pub state: State,
    pub commands: Seq<Command>,
}

impl State {
    /// Whether both images have loaded.
    pub open spec fn all_images_loaded(self) -> bool {
        self.left_loaded && self.right_loaded
    }

    /// Whether both images have proportions: each has loaded with natural
    /// dimensions of at least one pixel.
    pub open spec fn has_ratios(self) -> bool {
        &&& self.left_ratio matches Some(r) && r.wf()
        &&& self.right_ratio matches Some(r) && r.wf()
    }
}

/// No listener at all.
pub open spec fn no_listeners() -> Listeners {
    Listeners {
        touch_start: false,
        touch_end: false,
        mouse_down: false,
        mouse_up: false,
        hover_move: false,
        mouse_leave: false,
        moving: None,
    }
}

/// The state of a widget that was just created.
pub open spec fn initial_state(config: Config) -> State {
    State {
        mounted: false,
        slider_position: config.slider_position,
        container_width: Fixed { raw: 0 },
        container_height: Fixed { raw: 0 },
        left_loaded: false,
        right_loaded: false,
        left_ratio: None,
        right_ratio: None,
        is_sliding: false,
        listeners: no_listeners(),
    }
}

/// The listeners that stand between interactions. Touch is wired once both
/// images have loaded: a touch starts on the container and ends anywhere.
/// The mouse is wired for following the pointer over the container, or else
/// for a press on the container that is released anywhere.
pub open spec fn wiring(hover: bool, loaded: bool) -> Listeners {
    Listeners {
        touch_start: loaded,
        touch_end: loaded,
        mouse_down: !hover,
        mouse_up: !hover,
        hover_move: hover,
        mouse_leave: hover,
        moving: None,
    }
}

/// The global move listener of a device.
pub open spec fn move_listener(modality: Modality) -> Listener {
    match modality {
        Modality::Mouse => Listener::GlobalMouseMove,
        Modality::Touch => Listener::GlobalTouchMove,
    }
}

/// The command, if the flag is set.
pub open spec fn only_if(flag: bool, command: Command) -> Seq<Command> {
    if flag {
        seq![command]
    } else {
        Seq::empty()
    }
}

/// The removal of the global move listener, if there is one.
pub open spec fn move_removal(listeners: Listeners) -> Seq<Command> {
    match listeners.moving {
        Some(modality) => seq![Command::Deregister(move_listener(modality))],
        None => Seq::empty(),
    }
}

/// The removal of every listener that is registered.
pub open spec fn removals(listeners: Listeners) -> Seq<Command> {
    move_removal(listeners) + only_if(
        listeners.touch_start,
        Command::Deregister(Listener::ContainerTouchStart),
    ) + only_if(listeners.touch_end, Command::Deregister(Listener::GlobalTouchEnd)) + only_if(
        listeners.mouse_down,
        Command::Deregister(Listener::ContainerMouseDown),
    ) + only_if(listeners.mouse_up, Command::Deregister(Listener::GlobalMouseUp)) + only_if(
        listeners.hover_move,
        Command::Deregister(Listener::ContainerMouseMove),
    ) + only_if(listeners.mouse_leave, Command::Deregister(Listener::ContainerMouseLeave))
}

/// The registration of every listener of a wiring.
pub open spec fn installations(listeners: Listeners) -> Seq<Command> {
    only_if(listeners.touch_start, Command::Register(Listener::ContainerTouchStart)) + only_if(
        listeners.touch_end,
        Command::Register(Listener::GlobalTouchEnd),
    ) + only_if(listeners.mouse_down, Command::Register(Listener::ContainerMouseDown)) + only_if(
        listeners.mouse_up,
        Command::Register(Listener::GlobalMouseUp),
    ) + only_if(listeners.hover_move, Command::Register(Listener::ContainerMouseMove)) + only_if(
        listeners.mouse_leave,
        Command::Register(Listener::ContainerMouseLeave),
    )
}

/// The state with its wiring renewed: every registration is removed before
/// the listeners that now apply are registered.
pub open spec fn rewired(config: Config, state: State) -> Outcome {
    let target = wiring(config.hover, state.all_images_loaded());
    Outcome {
        state: State { listeners: target, ..state },
        commands: removals(state.listeners) + installations(target),
    }
}

/// The state with its height resolved anew from the current width and the
/// images' proportions, once both images have loaded with dimensions.
pub open spec fn with_height(config: Config, state: State) -> State {
    if state.all_images_loaded() && state.has_ratios() {
        State {
            container_height: Fixed {
                raw: resolved_height(
                    state.left_ratio->0,
                    state.right_ratio->0,
                    config.aspect_ratio,
                    state.container_width,
                ) as i64,
            },
            ..state
        }
    } else {
        state
    }
}

/// The container's extent along the active axis.
pub open spec fn extent(config: Config, state: State) -> Fixed {
    if config.vertical {
        state.container_height
    } else {
        state.container_width
    }
}

/// The state after a pointer sample: the position that the pointer asks for
/// is committed and announced, or everything stays as it is where the
/// container has no extent.
pub open spec fn committed(config: Config, state: State, sample: Sample) -> Outcome {
    match normalized(
        pointed_at(sample.pointer),
        sample.scroll,
        sample.origin,
        extent(config, state),
        !config.vertical,
        config.slider_line_width,
    ) {
        Some(raw) => Outcome {
            state: State { slider_position: Fixed { raw: raw as i64 }, ..state },
            commands: seq![Command::PositionChanged(Fixed { raw: raw as i64 })],
        },
        None => Outcome { state, commands: Seq::empty() },
    }
}

/// The state with the global move listener of a device registered. A move
/// listener that is still registered is removed first.
pub open spec fn grabbed(state: State, modality: Modality) -> Outcome {
    Outcome {
        state: State {
            listeners: Listeners { moving: Some(modality), ..state.listeners },
            ..state
        },
        commands: move_removal(state.listeners) + seq![
            Command::Register(move_listener(modality)),
        ],
    }
}

/// The state at rest after an interaction: the global move listener is
/// removed, if there is one.
pub open spec fn released(state: State) -> Outcome {
    Outcome {
        state: State {
            is_sliding: false,
            listeners: Listeners { moving: None, ..state.listeners },
            ..state
        },
        commands: move_removal(state.listeners),
    }
}

/// The state that ignores an event.
pub open spec fn unchanged(state: State) -> Outcome {
    Outcome { state, commands: Seq::empty() }
}

/// Whether a pointer event is a touch event without active touch points.
pub open spec fn without_touches(pointer: PointerEvent) -> bool {
    pointer matches PointerEvent::Touch { active_touches, .. } && active_touches == 0
}

/// The state with an image's load recorded.
pub open spec fn with_image(state: State, side: Side, ratio: Option<Ratio>, loaded: bool) -> State {
    match side {
        Side::Left => State { left_loaded: loaded, left_ratio: ratio, ..state },
        Side::Right => State { right_loaded: loaded, right_ratio: ratio, ..state },
    }
}

/// The proportions of an image with the given natural dimensions.
pub open spec fn ratio_of(natural_height: u32, natural_width: u32) -> Option<Ratio> {
    if natural_height >= 1 && natural_width >= 1 {
        Some(Ratio { height: natural_height, width: natural_width })
    } else {
        None
    }
}

/// The state after a change of an image: the wiring is renewed where the
/// widget is mounted and it has changed whether both images are loaded.
pub open spec fn after_image(config: Config, before: State, after: State) -> Outcome {
    if before.mounted && before.all_images_loaded() != after.all_images_loaded() {
        rewired(config, after)
    } else {
        unchanged(after)
    }
}

/// The transition function: the state after an event, and the commands for
/// the host. An event whose listener is not registered changes nothing.
pub open spec fn step(config: Config, state: State, event: Event) -> Outcome {
    match event {
        Event::Mounted => rewired(config, State { mounted: true, ..state }),
        Event::Unmounted => Outcome {
            state: State {
                mounted: false,
                is_sliding: false,
                listeners: no_listeners(),
                ..state
            },
            commands: removals(state.listeners),
        },
        Event::ImageLoaded { side, natural_height, natural_width } => after_image(
            config,
            state,
            with_height(
                config,
                with_image(state, side, ratio_of(natural_height, natural_width), true),
            ),
        ),
        Event::ImageRemoved { side } => after_image(
            config,
            state,
            with_image(state, side, None, false),
        ),
        Event::Resized { width } => unchanged(
            with_height(config, State { container_width: width, ..state }),
        ),
        Event::TouchStart(sample) => if state.listeners.touch_start {
            let moved = committed(config, State { is_sliding: true, ..state }, sample);
            let held = grabbed(moved.state, Modality::Touch);
            Outcome {
                state: held.state,
                commands: only_if(without_touches(sample.pointer), Command::PreventDefault)
                    + moved.commands + held.commands,
            }
        } else {
            unchanged(state)
        },
        Event::TouchMove(sample) => if state.listeners.moving == Some(Modality::Touch) {
            committed(config, state, sample)
        } else {
            unchanged(state)
        },
        Event::TouchEnd => if state.listeners.touch_end {
            released(state)
        } else {
            unchanged(state)
        },
        Event::MouseDown => if state.listeners.mouse_down {
            grabbed(State { is_sliding: true, ..state }, Modality::Mouse)
        } else {
            unchanged(state)
        },
        Event::MouseMove(sample) => if state.listeners.hover_move {
            committed(config, State { is_sliding: true, ..state }, sample)
        } else if state.listeners.moving == Some(Modality::Mouse) {
            committed(config, state, sample)
        } else {
            unchanged(state)
        },
        Event::MouseUp => if state.listeners.mouse_up {
            released(state)
        } else {
            unchanged(state)
        },
        Event::MouseLeave => if state.listeners.mouse_leave {
            released(state)
        } else {
            unchanged(state)
        },
    }
}


/// Appends the command, if the flag is set.
fn push_if(commands: &mut Vec<Command>, flag: bool, command: Command)
    ensures
        final(commands)@ == old(commands)@ + only_if(flag, command),
{
    if flag {
        commands.push(command);
    }
    assert(final(commands)@ =~= old(commands)@ + only_if(flag, command));
}

/// Appends the removal of the global move listener, if there is one.
fn push_move_removal(commands: &mut Vec<Command>, listeners: Listeners)
    ensures
        final(commands)@ == old(commands)@ + move_removal(listeners),
{
    match listeners.moving {
        Some(Modality::Mouse) => commands.push(Command::Deregister(Listener::GlobalMouseMove)),
        Some(Modality::Touch) => commands.push(Command::Deregister(Listener::GlobalTouchMove)),
        None => {},
    }
    assert(final(commands)@ =~= old(commands)@ + move_removal(listeners));
}

/// Appending is associative.
proof fn lemma_append_associative(a: Seq<Command>, b: Seq<Command>, c: Seq<Command>)
    ensures
        (a + b) + c == a + (b + c),
{
    assert((a + b) + c =~= a + (b + c));
}

/// Appends the removal of every listener that is registered.
fn push_removals(commands: &mut Vec<Command>, listeners: Listeners)
    ensures
        final(commands)@ == old(commands)@ + removals(listeners),
{
    let ghost before = commands@;
    push_move_removal(commands, listeners);
    let ghost r0 = move_removal(listeners);
    let ghost a1 = only_if(listeners.touch_start, Command::Deregister(Listener::ContainerTouchStart));
    push_if(commands, listeners.touch_start, Command::Deregister(Listener::ContainerTouchStart));
    proof {
        lemma_append_associative(before, r0, a1);
    }
    let ghost a2 = only_if(listeners.touch_end, Command::Deregister(Listener::GlobalTouchEnd));
    push_if(commands, listeners.touch_end, Command::Deregister(Listener::GlobalTouchEnd));
    proof {
        lemma_append_associative(before, r0 + a1, a2);
    }
    let ghost a3 = only_if(listeners.mouse_down, Command::Deregister(Listener::ContainerMouseDown));
    push_if(commands, listeners.mouse_down, Command::Deregister(Listener::ContainerMouseDown));
    proof {
        lemma_append_associative(before, r0 + a1 + a2, a3);
    }
    let ghost a4 = only_if(listeners.mouse_up, Command::Deregister(Listener::GlobalMouseUp));
    push_if(commands, listeners.mouse_up, Command::Deregister(Listener::GlobalMouseUp));
    proof {
        lemma_append_associative(before, r0 + a1 + a2 + a3, a4);
    }
    let ghost a5 = only_if(listeners.hover_move, Command::Deregister(Listener::ContainerMouseMove));
    push_if(commands, listeners.hover_move, Command::Deregister(Listener::ContainerMouseMove));
    proof {
        lemma_append_associative(before, r0 + a1 + a2 + a3 + a4, a5);
    }
    let ghost a6 = only_if(listeners.mouse_leave, Command::Deregister(Listener::ContainerMouseLeave));
    push_if(commands, listeners.mouse_leave, Command::Deregister(Listener::ContainerMouseLeave));
    proof {
        lemma_append_associative(before, r0 + a1 + a2 + a3 + a4 + a5, a6);
    }
}

/// Appends the registration of every listener of a wiring.
fn push_installations(commands: &mut Vec<Command>, listeners: Listeners)
    ensures
        final(commands)@ == old(commands)@ + installations(listeners),
{
    let ghost before = commands@;
    let ghost a1 = only_if(listeners.touch_start, Command::Register(Listener::ContainerTouchStart));
    push_if(commands, listeners.touch_start, Command::Register(Listener::ContainerTouchStart));
    let ghost a2 = only_if(listeners.touch_end, Command::Register(Listener::GlobalTouchEnd));
    push_if(commands, listeners.touch_end, Command::Register(Listener::GlobalTouchEnd));
    proof {
        lemma_append_associative(before, a1, a2);
    }
    let ghost a3 = only_if(listeners.mouse_down, Command::Register(Listener::ContainerMouseDown));
    push_if(commands, listeners.mouse_down, Command::Register(Listener::ContainerMouseDown));
    proof {
        lemma_append_associative(before, a1 + a2, a3);
    }
    let ghost a4 = only_if(listeners.mouse_up, Command::Register(Listener::GlobalMouseUp));
    push_if(commands, listeners.mouse_up, Command::Register(Listener::GlobalMouseUp));
    proof {
        lemma_append_associative(before, a1 + a2 + a3, a4);
    }
    let ghost a5 = only_if(listeners.hover_move, Command::Register(Listener::ContainerMouseMove));
    push_if(commands, listeners.hover_move, Command::Register(Listener::ContainerMouseMove));
    proof {
        lemma_append_associative(before, a1 + a2 + a3 + a4, a5);
    }
    let ghost a6 = only_if(listeners.mouse_leave, Command::Register(Listener::ContainerMouseLeave));
    push_if(commands, listeners.mouse_leave, Command::Register(Listener::ContainerMouseLeave));
    proof {
        lemma_append_associative(before, a1 + a2 + a3 + a4 + a5, a6);
    }
}

/// Renews the wiring.
fn rewire(config: &Config, state: State, commands: &mut Vec<Command>) -> (next: State)
    ensures
        next == rewired(*config, state).state,
        final(commands)@ == old(commands)@ + rewired(*config, state).commands,
{
    let loaded = state.left_loaded && state.right_loaded;
    let target = Listeners {
        touch_start: loaded,
        touch_end: loaded,
        mouse_down: !config.hover,
        mouse_up: !config.hover,
        hover_move: config.hover,
        mouse_leave: config.hover,
        moving: None,
    };
    push_removals(commands, state.listeners);
    push_installations(commands, target);
    proof {
        lemma_append_associative(old(commands)@, removals(state.listeners), installations(target));
    }
    State { listeners: target, ..state }
}

/// Resolves the height anew.
fn resolve(config: &Config, state: State) -> (next: State)
    ensures
        next == with_height(*config, state),
{
    if state.left_loaded && state.right_loaded {
        match (state.left_ratio, state.right_ratio) {
            (Some(left), Some(right)) => if left.is_wf() && right.is_wf() {
                State {
                    container_height: resolve_height(
                        left,
                        right,
                        config.aspect_ratio,
                        state.container_width,
                    ),
                    ..state
                }
            } else {
                state
            },
            _ => state,
        }
    } else {
        state
    }
}

/// Commits the position that a pointer sample asks for.
fn commit(config: &Config, state: State, sample: Sample, commands: &mut Vec<Command>) -> (next:
    State)
    ensures
        next == committed(*config, state, sample).state,
        final(commands)@ == old(commands)@ + committed(*config, state, sample).commands,
{
    let along = if config.vertical {
        state.container_height
    } else {
        state.container_width
    };
    let asked = normalized_position(
        sample.pointer.coordinates(),
        sample.scroll,
        sample.origin,
        along,
        !config.vertical,
        config.slider_line_width,
    );
    match asked {
        Some(position) => {
            commands.push(Command::PositionChanged(position));
            assert(final(commands)@ =~= old(commands)@ + committed(
                *config,
                state,
                sample,
            ).commands);
            State { slider_position: position, ..state }
        },
        None => {
            assert(final(commands)@ =~= old(commands)@ + committed(
                *config,
                state,
                sample,
            ).commands);
            state
        },
    }
}

/// Registers the global move listener of a device.
fn grab(state: State, modality: Modality, commands: &mut Vec<Command>) -> (next: State)
    ensures
        next == grabbed(state, modality).state,
        final(commands)@ == old(commands)@ + grabbed(state, modality).commands,
{
    push_move_removal(commands, state.listeners);
    match modality {
        Modality::Mouse => commands.push(Command::Register(Listener::GlobalMouseMove)),
        Modality::Touch => commands.push(Command::Register(Listener::GlobalTouchMove)),
    }
    assert(final(commands)@ =~= old(commands)@ + grabbed(state, modality).commands);
    State { listeners: Listeners { moving: Some(modality), ..state.listeners }, ..state }
}

/// Ends an interaction.
fn release(state: State, commands: &mut Vec<Command>) -> (next: State)
    ensures
        next == released(state).state,
        final(commands)@ == old(commands)@ + released(state).commands,
{
    push_move_removal(commands, state.listeners);
    State {
        is_sliding: false,
        listeners: Listeners { moving: None, ..state.listeners },
        ..state
    }
}

/// Records the change of an image.
fn change_image(config: &Config, before: State, after: State, commands: &mut Vec<Command>) -> (next:
    State)
    ensures
        next == after_image(*config, before, after).state,
        final(commands)@ == old(commands)@ + after_image(*config, before, after).commands,
{
    let was = before.left_loaded && before.right_loaded;
    let is = after.left_loaded && after.right_loaded;
    if before.mounted && was != is {
        rewire(config, after, commands)
    } else {
        assert(final(commands)@ =~= old(commands)@ + Seq::<Command>::empty());
        after
    }
}

/// The state with an image's load recorded.
fn record_image(state: State, side: Side, ratio: Option<Ratio>, loaded: bool) -> (next: State)
    ensures
        next == with_image(state, side, ratio, loaded),
{
    match side {
        Side::Left => State { left_loaded: loaded, left_ratio: ratio, ..state },
        Side::Right => State { right_loaded: loaded, right_ratio: ratio, ..state },
    }
}

/// The state after an event, and the commands that the host has to carry
/// out, in order. A slider position between 0 and 1 stays there.
pub fn transition(config: &Config, state: State, event: Event) -> (outcome: (State, Vec<Command>))
    ensures
        outcome.0 == step(*config, state, event).state,
        outcome.1@ == step(*config, state, event).commands,
        0 <= state.slider_position.raw <= SCALE ==> 0 <= outcome.0.slider_position.raw <= SCALE,
{
    proof {
        if 0 <= state.slider_position.raw <= SCALE {
            lemma_position_stays_in_range(*config, state, event);
        }
    }
    let mut commands: Vec<Command> = Vec::new();
    let ghost expected = step(*config, state, event);
    let next = match event {
        Event::Mounted => rewire(config, State { mounted: true, ..state }, &mut commands),
        Event::Unmounted => {
            push_removals(&mut commands, state.listeners);
            State {
                mounted: false,
                is_sliding: false,
                listeners: Listeners {
                    touch_start: false,
                    touch_end: false,
                    mouse_down: false,
                    mouse_up: false,
                    hover_move: false,
                    mouse_leave: false,
                    moving: None,
                },
                ..state
            }
        },
        Event::ImageLoaded { side, natural_height, natural_width } => {
            let ratio = Ratio::new(natural_height, natural_width);
            let loaded = resolve(config, record_image(state, side, ratio, true));
            change_image(config, state, loaded, &mut commands)
        },
        Event::ImageRemoved { side } => {
            let removed = record_image(state, side, None, false);
            change_image(config, state, removed, &mut commands)
        },
        Event::Resized { width } => resolve(config, State { container_width: width, ..state }),
        Event::TouchStart(sample) => if state.listeners.touch_start {
            let prevent = match sample.pointer {
                PointerEvent::Touch { active_touches, .. } => active_touches == 0,
                PointerEvent::Mouse { .. } => false,
            };
            push_if(&mut commands, prevent, Command::PreventDefault);
            let moved = commit(config, State { is_sliding: true, ..state }, sample, &mut commands);
            grab(moved, Modality::Touch, &mut commands)
        } else {
            state
        },
        Event::TouchMove(sample) => match state.listeners.moving {
            Some(Modality::Touch) => commit(config, state, sample, &mut commands),
            _ => state,
        },
        Event::TouchEnd => if state.listeners.touch_end {
            release(state, &mut commands)
        } else {
            state
        },
        Event::MouseDown => if state.listeners.mouse_down {
            grab(State { is_sliding: true, ..state }, Modality::Mouse, &mut commands)
        } else {
            state
        },
        Event::MouseMove(sample) => if state.listeners.hover_move {
            commit(config, State { is_sliding: true, ..state }, sample, &mut commands)
        } else {
            match state.listeners.moving {
                Some(Modality::Mouse) => commit(config, state, sample, &mut commands),
                _ => state,
            }
        },
        Event::MouseUp => if state.listeners.mouse_up {
            release(state, &mut commands)
        } else {
            state
        },
        Event::MouseLeave => if state.listeners.mouse_leave {
            release(state, &mut commands)
        } else {
            state
        },
    };
    assert(commands@ =~= expected.commands);
    (next, commands)
}

/// The styles of all regions for a configuration and a state.
pub open spec fn widget_styles(config: Config, state: State) -> StyleSheetModel {
    style_sheet_model(
        config.handle_size,
        state.container_height,
        state.container_width,
        state.slider_position,
        config.slider_line_width,
        config.slider_line_color@,
        state.is_sliding,
        !config.vertical,
        config.hover,
        css_overrides(
            match config.left_image_css {
                Some(css) => Some(css@),
                None => None,
            },
        ),
        css_overrides(
            match config.right_image_css {
                Some(css) => Some(css@),
                None => None,
            },
        ),
    )
}

/// The inline CSS of the container: its style, followed by the display
/// that shows it once both images have loaded and hides it until then.
pub open spec fn container_css_text(config: Config, state: State) -> Seq<char> {
    style_css(widget_styles(config, state).container) + (if state.all_images_loaded() {
        "display: block"@
    } else {
        "display: none"@
    })
}

/// A comparison widget: a configuration that was checked, and the state
/// that events have led to.
#[derive(Debug)]
pub struct Widget {
    config: Config,
    state: State,
}

impl Widget {
    #[verifier::type_invariant]
    spec fn position_in_range(&self) -> bool {
        0 <= self.state.slider_position.raw <= SCALE
    }

    /// The configuration that the widget was created with.
    pub closed spec fn settings(&self) -> Config {
        self.config
    }

    /// The widget's state.
    pub closed spec fn current(&self) -> State {
        self.state
    }

    /// A widget with the given configuration, not yet mounted: the divider
    /// is where the configuration puts it, nothing is loaded and no
    /// listener is registered. A configuration that is not valid is
    /// refused, with the reason.
    pub fn new(config: Config) -> (created: Result<Widget, ConfigError>)
        ensures
            created is Ok <==> config.is_valid(),
            created matches Ok(widget) ==> widget.settings() == config && widget.current()
                == initial_state(config),
            created matches Err(error) ==> config.validate_spec() == Err::<(), ConfigError>(error),
    {
        match config.validate() {
            Ok(()) => {
                let state = State {
                    mounted: false,
                    slider_position: config.slider_position,
                    container_width: Fixed { raw: 0 },
                    container_height: Fixed { raw: 0 },
                    left_loaded: false,
                    right_loaded: false,
                    left_ratio: None,
                    right_ratio: None,
                    is_sliding: false,
                    listeners: Listeners {
                        touch_start: false,
                        touch_end: false,
                        mouse_down: false,
                        mouse_up: false,
                        hover_move: false,
                        mouse_leave: false,
                        moving: None,
                    },
                };
                Ok(Widget { config, state })
            },
            Err(error) => Err(error),
        }
    }

    /// The configuration.
    pub fn config(&self) -> (config: &Config)
        ensures
            *config == self.settings(),
    {
        &self.config
    }

    /// The state.
    pub fn state(&self) -> (state: State)
        ensures
            state == self.current(),
    {
        self.state
    }

    /// Where the divider is: a fraction of the container's extent, always
    /// between 0 and 1.
    pub fn slider_position(&self) -> (position: Fixed)
        ensures
            position == self.current().slider_position,
            0 <= position.raw <= SCALE,
    {
        proof {
            use_type_invariant(self);
        }
        self.state.slider_position
    }

    /// Whether both images have loaded.
    pub fn all_images_loaded(&self) -> (loaded: bool)
        ensures
            loaded == self.current().all_images_loaded(),
    {
        self.state.left_loaded && self.state.right_loaded
    }

    /// Whether the placeholder is shown: the caller has supplied one, and
    /// the images have not both loaded.
    pub fn shows_skeleton(&self) -> (shown: bool)
        ensures
            shown == (self.settings().skeleton && !self.current().all_images_loaded()),
    {
        self.config.skeleton && !self.all_images_loaded()
    }

    /// Takes an event: the state moves on as [`step`] says, and the
    /// commands that it returns are for the host to carry out, in order.
    /// The slider position stays between 0 and 1.
    pub fn handle(&mut self, event: Event) -> (commands: Vec<Command>)
        ensures
            final(self).settings() == old(self).settings(),
            0 <= final(self).current().slider_position.raw <= SCALE,
            final(self).current() == step(old(self).settings(), old(self).current(), event).state,
            commands@ == step(old(self).settings(), old(self).current(), event).commands,
    {
        proof {
            use_type_invariant(&*self);
        }
        let (state, commands) = transition(&self.config, self.state, event);
        self.state = state;
        commands
    }

    /// The styles of all regions in the current state.
    #[must_use]
    pub fn styles(&self) -> (styles: StyleSheet)
        ensures
            styles@ == widget_styles(self.settings(), self.current()),
    {
        let left: Option<&str> = match &self.config.left_image_css {
            Some(css) => Some(css.as_str()),
            None => None,
        };
        let right: Option<&str> = match &self.config.right_image_css {
            Some(css) => Some(css.as_str()),
            None => None,
        };
        create_styles(
            self.config.handle_size,
            self.state.container_height,
            self.state.container_width,
            self.state.slider_position,
            self.config.slider_line_width,
            self.config.slider_line_color.as_str(),
            self.state.is_sliding,
            !self.config.vertical,
            self.config.hover,
            left,
            right,
        )
    }

    /// The inline CSS of the container element.
    #[must_use]
    pub fn container_css(&self) -> (css: String)
        ensures
            css@ == container_css_text(self.settings(), self.current()),
    {
        let styles = self.styles();
        let mut css = styles.container.as_css();
        if self.all_images_loaded() {
            css.append("display: block");
        } else {
            css.append("display: none");
        }
        css
    }
}


/// The pointer sample that an event carries, if it carries one.
pub open spec fn sample_of(event: Event) -> Option<Sample> {
    match event {
        Event::TouchStart(sample) => Some(sample),
        Event::TouchMove(sample) => Some(sample),
        Event::MouseMove(sample) => Some(sample),
        _ => None,
    }
}

/// Committing a pointer sample keeps the position between 0 and 1, whether
/// or not the divider is being moved.
proof fn lemma_committed_in_range(config: Config, state: State, sample: Sample)
    requires
        0 <= state.slider_position.raw <= SCALE,
    ensures
        0 <= committed(config, state, sample).state.slider_position.raw <= SCALE,
        0 <= committed(
            config,
            State { is_sliding: true, ..state },
            sample,
        ).state.slider_position.raw <= SCALE,
{
    lemma_normalized_in_unit_range(
        pointed_at(sample.pointer),
        sample.scroll,
        sample.origin,
        extent(config, state),
        !config.vertical,
        config.slider_line_width,
    );
}

/// The slider position stays between 0 and 1: whatever the configuration
/// and the event, a position in that range is followed by one.
pub proof fn lemma_position_stays_in_range(config: Config, state: State, event: Event)
    requires
        0 <= state.slider_position.raw <= SCALE,
    ensures
        0 <= step(config, state, event).state.slider_position.raw <= SCALE,
{
    match sample_of(event) {
        Some(sample) => {
            lemma_committed_in_range(config, state, sample);
        },
        None => {},
    }
}

/// Labels follow the interaction: in every state both labels have opacity
/// 0 exactly if the divider is being moved, and 1 otherwise. An interaction
/// that starts sets the state to sliding and one that ends sets it to rest,
/// so the labels hide with the first and show again with the second.
pub proof fn lemma_labels_follow_the_interaction(config: Config, state: State, sample: Sample)
    ensures
        widget_styles(config, state).left_label["opacity"@] == text_value("0"@)
            <==> state.is_sliding,
        widget_styles(config, state).right_label["opacity"@] == text_value("0"@)
            <==> state.is_sliding,
        widget_styles(config, state).left_label["opacity"@] == text_value("1"@)
            <==> !state.is_sliding,
        widget_styles(config, state).right_label["opacity"@] == text_value("1"@)
            <==> !state.is_sliding,
        state.listeners.touch_start ==> step(
            config,
            state,
            Event::TouchStart(sample),
        ).state.is_sliding,
        state.listeners.mouse_down ==> step(config, state, Event::MouseDown).state.is_sliding,
        state.listeners.hover_move ==> step(
            config,
            state,
            Event::MouseMove(sample),
        ).state.is_sliding,
        state.listeners.touch_end ==> !step(config, state, Event::TouchEnd).state.is_sliding,
        state.listeners.mouse_up ==> !step(config, state, Event::MouseUp).state.is_sliding,
        state.listeners.mouse_leave ==> !step(config, state, Event::MouseLeave).state.is_sliding,
{
    lemma_labels_hide_while_sliding(!config.vertical, state.is_sliding);
    reveal_strlit("0");
    reveal_strlit("1");
    assert("0"@ != "1"@) by {
        assert("0"@[0] != "1"@[0]);
    }
}


/// Resolving the height does not accumulate: the height after an event
/// that resolves it is a function of the container's width, the images'
/// proportions and the policy, and owes nothing to the height before. Two
/// states that differ in their height only have the same state after a
/// resize.
pub proof fn lemma_height_does_not_accumulate(
    config: Config,
    state: State,
    other_height: Fixed,
    width: Fixed,
)
    ensures
        state.all_images_loaded() && state.has_ratios() ==> step(
            config,
            state,
            Event::Resized { width },
        ).state == step(
            config,
            State { container_height: other_height, ..state },
            Event::Resized { width },
        ).state,
        state.all_images_loaded() && state.has_ratios() ==> step(
            config,
            state,
            Event::Resized { width },
        ).state.container_height.raw == resolved_height(
            state.left_ratio->0,
            state.right_ratio->0,
            config.aspect_ratio,
            width,
        ),
{
    if state.all_images_loaded() && state.has_ratios() {
        assert(i64::MIN <= resolved_height(
            state.left_ratio->0,
            state.right_ratio->0,
            config.aspect_ratio,
            width,
        ) <= i64::MAX);
    }
}

/// The two images may load in either order: from any state, the left
/// image's load followed by the right image's leads to the same state, by
/// the same commands, as the right image's load followed by the left
/// image's, where both images load with dimensions.
pub proof fn lemma_image_loads_commute(
    config: Config,
    state: State,
    left_height: u32,
    left_width: u32,
    right_height: u32,
    right_width: u32,
)
    requires
        left_height >= 1,
        left_width >= 1,
        right_height >= 1,
        right_width >= 1,
    ensures
        ({
            let left = Event::ImageLoaded {
                side: Side::Left,
                natural_height: left_height,
                natural_width: left_width,
            };
            let right = Event::ImageLoaded {
                side: Side::Right,
                natural_height: right_height,
                natural_width: right_width,
            };
            let left_first = step(config, step(config, state, left).state, right);
            let right_first = step(config, step(config, state, right).state, left);
            &&& left_first.state == right_first.state
            &&& step(config, state, left).commands + left_first.commands == step(
                config,
                state,
                right,
            ).commands + right_first.commands
        }),
{
    let left = Event::ImageLoaded {
        side: Side::Left,
        natural_height: left_height,
        natural_width: left_width,
    };
    let right = Event::ImageLoaded {
        side: Side::Right,
        natural_height: right_height,
        natural_width: right_width,
    };
    let a = step(config, state, left);
    let b = step(config, state, right);
    let ab = step(config, a.state, right);
    let ba = step(config, b.state, left);
    assert(ab.state == ba.state);
    assert(a.commands + ab.commands =~= b.commands + ba.commands);
}

} // verus!
