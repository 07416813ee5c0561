//! The ledger of listeners: what the commands of the state machine do to
//! the listeners that the host holds, and what a whole drag registers and
//! removes.

use vstd::prelude::*;

use crate::widget::{
    committed, grabbed, installations, move_listener, move_removal, no_listeners, only_if,
    ratio_of, released, removals, rewired, sample_of, step, unchanged, wiring, with_height,
    with_image, without_touches, Command, Config, Event, Listener, Listeners, Modality, Outcome,
    Sample, State,
};

verus! {

/// Whether a listener is registered.
pub open spec fn is_registered(listeners: Listeners, listener: Listener) -> bool {
    match listener {
        Listener::ContainerTouchStart => listeners.touch_start,
        Listener::GlobalTouchEnd => listeners.touch_end,
        Listener::ContainerMouseDown => listeners.mouse_down,
        Listener::GlobalMouseUp => listeners.mouse_up,
        Listener::ContainerMouseMove => listeners.hover_move,
        Listener::ContainerMouseLeave => listeners.mouse_leave,
        Listener::GlobalTouchMove => listeners.moving == Some(Modality::Touch),
        Listener::GlobalMouseMove => listeners.moving == Some(Modality::Mouse),
    }
}

/// The listeners after one command was carried out, or `None` where the
/// command cannot be: it registers a listener that is registered, registers
/// a second global move listener, or removes a registration that is not
/// there.
pub open spec fn carried_out(listeners: Listeners, command: Command) -> Option<Listeners> {
    match command {
        Command::Register(listener) => if is_registered(listeners, listener) {
            None
        } else {
            match listener {
                Listener::ContainerTouchStart => Some(Listeners { touch_start: true, ..listeners }),
                Listener::GlobalTouchEnd => Some(Listeners { touch_end: true, ..listeners }),
                Listener::ContainerMouseDown => Some(Listeners { mouse_down: true, ..listeners }),
                Listener::GlobalMouseUp => Some(Listeners { mouse_up: true, ..listeners }),
                Listener::ContainerMouseMove => Some(Listeners { hover_move: true, ..listeners }),
                Listener::ContainerMouseLeave => Some(
                    Listeners { mouse_leave: true, ..listeners },
                ),
                Listener::GlobalTouchMove => if listeners.moving is None {
                    Some(Listeners { moving: Some(Modality::Touch), ..listeners })
                } else {
                    None
                },
                Listener::GlobalMouseMove => if listeners.moving is None {
                    Some(Listeners { moving: Some(Modality::Mouse), ..listeners })
                } else {
                    None
                },
            }
        },
        Command::Deregister(listener) => if !is_registered(listeners, listener) {
            None
        } else {
            match listener {
                Listener::ContainerTouchStart => Some(
                    Listeners { touch_start: false, ..listeners },
                ),
                Listener::GlobalTouchEnd => Some(Listeners { touch_end: false, ..listeners }),
                Listener::ContainerMouseDown => Some(Listeners { mouse_down: false, ..listeners }),
                Listener::GlobalMouseUp => Some(Listeners { mouse_up: false, ..listeners }),
                Listener::ContainerMouseMove => Some(Listeners { hover_move: false, ..listeners }),
                Listener::ContainerMouseLeave => Some(
                    Listeners { mouse_leave: false, ..listeners },
                ),
                Listener::GlobalTouchMove => Some(Listeners { moving: None, ..listeners }),
                Listener::GlobalMouseMove => Some(Listeners { moving: None, ..listeners }),
            }
        },
        Command::PreventDefault => Some(listeners),
        Command::PositionChanged(_) => Some(listeners),
    }
}

/// The listeners after a run of commands was carried out in order, or
/// `None` where one of them cannot be.
pub open spec fn all_carried_out(listeners: Listeners, commands: Seq<Command>) -> Option<Listeners>
    decreases commands.len(),
{
    if commands.len() == 0 {
        Some(listeners)
    } else {
        match all_carried_out(listeners, commands.drop_last()) {
            Some(so_far) => carried_out(so_far, commands.last()),
            None => None,
        }
    }
}

/// Carrying out two runs one after the other is carrying out their
/// concatenation.
proof fn lemma_carried_out_in_turn(listeners: Listeners, first: Seq<Command>, second: Seq<Command>)
    ensures
        all_carried_out(listeners, first + second) == match all_carried_out(listeners, first) {
            Some(so_far) => all_carried_out(so_far, second),
            None => None,
        },
    decreases second.len(),
{
    if second.len() == 0 {
        assert(first + second =~= first);
    } else {
        lemma_carried_out_in_turn(listeners, first, second.drop_last());
        assert((first + second).drop_last() =~= first + second.drop_last());
        assert((first + second).last() == second.last());
    }
}

/// Carrying out one command.
proof fn lemma_carried_out_single(listeners: Listeners, command: Command)
    ensures
        all_carried_out(listeners, seq![command]) == carried_out(listeners, command),
{
    reveal_with_fuel(all_carried_out, 2);
    assert(seq![command].drop_last() =~= Seq::<Command>::empty());
    assert(seq![command].last() == command);
}

/// Carrying out a run that ends with an optional command.
proof fn lemma_carried_out_optional(
    listeners: Listeners,
    first: Seq<Command>,
    flag: bool,
    command: Command,
)
    ensures
        all_carried_out(listeners, first + only_if(flag, command)) == match all_carried_out(
            listeners,
            first,
        ) {
            Some(so_far) => if flag {
                carried_out(so_far, command)
            } else {
                Some(so_far)
            },
            None => None,
        },
{
    lemma_carried_out_in_turn(listeners, first, only_if(flag, command));
    match all_carried_out(listeners, first) {
        Some(so_far) => {
            lemma_carried_out_single(so_far, command);
        },
        None => {},
    }
}

/// Removing the global move listener can be carried out, and leaves none.
proof fn lemma_move_removal_carried_out(listeners: Listeners)
    ensures
        all_carried_out(listeners, move_removal(listeners)) == Some(
            Listeners { moving: None, ..listeners },
        ),
{
    match listeners.moving {
        Some(modality) => {
            lemma_carried_out_single(listeners, Command::Deregister(move_listener(modality)));
        },
        None => {},
    }
}

/// Removing every registration can be carried out, and leaves none.
proof fn lemma_removals_carried_out(listeners: Listeners)
    ensures
        all_carried_out(listeners, removals(listeners)) == Some(no_listeners()),
{
    lemma_move_removal_carried_out(listeners);
    let r0 = move_removal(listeners);
    lemma_carried_out_optional(
        listeners,
        r0,
        listeners.touch_start,
        Command::Deregister(Listener::ContainerTouchStart),
    );
    let r1 = r0 + only_if(listeners.touch_start, Command::Deregister(Listener::ContainerTouchStart));
    lemma_carried_out_optional(
        listeners,
        r1,
        listeners.touch_end,
        Command::Deregister(Listener::GlobalTouchEnd),
    );
    let r2 = r1 + only_if(listeners.touch_end, Command::Deregister(Listener::GlobalTouchEnd));
    lemma_carried_out_optional(
        listeners,
        r2,
        listeners.mouse_down,
        Command::Deregister(Listener::ContainerMouseDown),
    );
    let r3 = r2 + only_if(listeners.mouse_down, Command::Deregister(Listener::ContainerMouseDown));
    lemma_carried_out_optional(
        listeners,
        r3,
        listeners.mouse_up,
        Command::Deregister(Listener::GlobalMouseUp),
    );
    let r4 = r3 + only_if(listeners.mouse_up, Command::Deregister(Listener::GlobalMouseUp));
    lemma_carried_out_optional(
        listeners,
        r4,
        listeners.hover_move,
        Command::Deregister(Listener::ContainerMouseMove),
    );
    let r5 = r4 + only_if(listeners.hover_move, Command::Deregister(Listener::ContainerMouseMove));
    lemma_carried_out_optional(
        listeners,
        r5,
        listeners.mouse_leave,
        Command::Deregister(Listener::ContainerMouseLeave),
    );
}

/// Installing a wiring where nothing is registered can be carried out, and
/// leaves that wiring.
proof fn lemma_installations_carried_out(target: Listeners)
    requires
        target.moving is None,
    ensures
        all_carried_out(no_listeners(), installations(target)) == Some(target),
{
    let none = no_listeners();
    let i0 = Seq::<Command>::empty();
    lemma_carried_out_optional(
        none,
        i0,
        target.touch_start,
        Command::Register(Listener::ContainerTouchStart),
    );
    let i1 = only_if(target.touch_start, Command::Register(Listener::ContainerTouchStart));
    assert(i0 + i1 =~= i1);
    lemma_carried_out_optional(none, i1, target.touch_end, Command::Register(Listener::GlobalTouchEnd));
    let i2 = i1 + only_if(target.touch_end, Command::Register(Listener::GlobalTouchEnd));
    lemma_carried_out_optional(
        none,
        i2,
        target.mouse_down,
        Command::Register(Listener::ContainerMouseDown),
    );
    let i3 = i2 + only_if(target.mouse_down, Command::Register(Listener::ContainerMouseDown));
    lemma_carried_out_optional(none, i3, target.mouse_up, Command::Register(Listener::GlobalMouseUp));
    let i4 = i3 + only_if(target.mouse_up, Command::Register(Listener::GlobalMouseUp));
    lemma_carried_out_optional(
        none,
        i4,
        target.hover_move,
        Command::Register(Listener::ContainerMouseMove),
    );
    let i5 = i4 + only_if(target.hover_move, Command::Register(Listener::ContainerMouseMove));
    lemma_carried_out_optional(
        none,
        i5,
        target.mouse_leave,
        Command::Register(Listener::ContainerMouseLeave),
    );
}

/// Renewing the wiring can be carried out.
proof fn lemma_rewired_carried_out(config: Config, state: State)
    ensures
        all_carried_out(state.listeners, rewired(config, state).commands) == Some(
            rewired(config, state).state.listeners,
        ),
{
    let target = wiring(config.hover, state.all_images_loaded());
    lemma_removals_carried_out(state.listeners);
    lemma_installations_carried_out(target);
    lemma_carried_out_in_turn(state.listeners, removals(state.listeners), installations(target));
}

/// Committing a position registers and removes nothing.
proof fn lemma_committed_carried_out(config: Config, state: State, sample: Sample)
    ensures
        all_carried_out(state.listeners, committed(config, state, sample).commands) == Some(
            state.listeners,
        ),
        committed(config, state, sample).state.listeners == state.listeners,
{
    let commands = committed(config, state, sample).commands;
    if commands.len() > 0 {
        lemma_carried_out_single(state.listeners, commands[0]);
        assert(commands =~= seq![commands[0]]);
    }
}

/// Registering the global move listener can be carried out.
proof fn lemma_grabbed_carried_out(state: State, modality: Modality)
    ensures
        all_carried_out(state.listeners, grabbed(state, modality).commands) == Some(
            grabbed(state, modality).state.listeners,
        ),
{
    lemma_move_removal_carried_out(state.listeners);
    let cleared = Listeners { moving: None, ..state.listeners };
    lemma_carried_out_single(cleared, Command::Register(move_listener(modality)));
    lemma_carried_out_in_turn(
        state.listeners,
        move_removal(state.listeners),
        seq![Command::Register(move_listener(modality))],
    );
}

/// The host's listeners follow the state. Whatever the state and the
/// event, the commands of a transition can be carried out in order on the
/// listeners that were registered before it, and leave exactly the
/// listeners that are registered after it: no listener is ever registered
/// twice, there is never a second global move listener, and nothing is
/// removed that is not registered.
pub proof fn lemma_commands_keep_the_ledger(config: Config, state: State, event: Event)
    ensures
        all_carried_out(state.listeners, step(config, state, event).commands) == Some(
            step(config, state, event).state.listeners,
        ),
{
    let listeners = state.listeners;
    let sliding = State { is_sliding: true, ..state };
    lemma_move_removal_carried_out(listeners);
    match sample_of(event) {
        Some(sample) => {
            lemma_committed_carried_out(config, state, sample);
            lemma_committed_carried_out(config, sliding, sample);
        },
        None => {},
    }
    match event {
        Event::Mounted => {
            lemma_rewired_carried_out(config, State { mounted: true, ..state });
        },
        Event::Unmounted => {
            lemma_removals_carried_out(listeners);
        },
        Event::ImageLoaded { side, natural_height, natural_width } => {
            let after = with_height(
                config,
                with_image(state, side, ratio_of(natural_height, natural_width), true),
            );
            lemma_rewired_carried_out(config, after);
        },
        Event::ImageRemoved { side } => {
            lemma_rewired_carried_out(config, with_image(state, side, None, false));
        },
        Event::TouchStart(sample) => {
            if listeners.touch_start {
                let moved = committed(config, sliding, sample);
                let held = grabbed(moved.state, Modality::Touch);
                let prevent = only_if(without_touches(sample.pointer), Command::PreventDefault);
                lemma_grabbed_carried_out(moved.state, Modality::Touch);
                lemma_carried_out_optional(
                    listeners,
                    Seq::<Command>::empty(),
                    without_touches(sample.pointer),
                    Command::PreventDefault,
                );
                assert(Seq::<Command>::empty() + prevent =~= prevent);
                lemma_carried_out_in_turn(listeners, prevent, moved.commands);
                lemma_carried_out_in_turn(listeners, prevent + moved.commands, held.commands);
            }
        },
        Event::MouseDown => {
            lemma_grabbed_carried_out(sliding, Modality::Mouse);
        },
        _ => {},
    }
}

/// Unmounting leaves no listener behind, whatever was registered.
pub proof fn lemma_unmounting_removes_every_listener(config: Config, state: State)
    ensures
        step(config, state, Event::Unmounted).state.listeners == no_listeners(),
        all_carried_out(state.listeners, step(config, state, Event::Unmounted).commands) == Some(
            no_listeners(),
        ),
        !step(config, state, Event::Unmounted).state.is_sliding,
{
    lemma_removals_carried_out(state.listeners);
}

/// The state after a run of events, and all commands of the run in order.
pub open spec fn run(config: Config, state: State, events: Seq<Event>) -> Outcome
    decreases events.len(),
{
    if events.len() == 0 {
        unchanged(state)
    } else {
        let before = run(config, state, events.drop_last());
        let last = step(config, before.state, events.last());
        Outcome { state: last.state, commands: before.commands + last.commands }
    }
}

/// The listeners that a run of commands registers, in order.
pub open spec fn registrations(commands: Seq<Command>) -> Seq<Listener>
    decreases commands.len(),
{
    if commands.len() == 0 {
        Seq::empty()
    } else {
        match commands.last() {
            Command::Register(listener) => registrations(commands.drop_last()).push(listener),
            _ => registrations(commands.drop_last()),
        }
    }
}

/// The listeners whose registration a run of commands removes, in order.
pub open spec fn deregistrations(commands: Seq<Command>) -> Seq<Listener>
    decreases commands.len(),
{
    if commands.len() == 0 {
        Seq::empty()
    } else {
        match commands.last() {
            Command::Deregister(listener) => deregistrations(commands.drop_last()).push(listener),
            _ => deregistrations(commands.drop_last()),
        }
    }
}

/// A drag by touch: the touch starts, moves any number of times, and ends.
pub open spec fn touch_drag(first: Sample, moves: Seq<Sample>) -> Seq<Event> {
    seq![Event::TouchStart(first)] + Seq::new(moves.len(), |i: int| Event::TouchMove(moves[i]))
        + seq![Event::TouchEnd]
}

/// A drag by mouse: the button is pressed, the mouse moves any number of
/// times, and the button is released.
pub open spec fn mouse_drag(moves: Seq<Sample>) -> Seq<Event> {
    seq![Event::MouseDown] + Seq::new(moves.len(), |i: int| Event::MouseMove(moves[i])) + seq![
        Event::MouseUp,
    ]
}

/// Registrations and removals of a concatenation.
proof fn lemma_ledger_of_concatenation(first: Seq<Command>, second: Seq<Command>)
    ensures
        registrations(first + second) == registrations(first) + registrations(second),
        deregistrations(first + second) == deregistrations(first) + deregistrations(second),
    decreases second.len(),
{
    if second.len() == 0 {
        assert(first + second =~= first);
        assert(registrations(first) + registrations(second) =~= registrations(first));
        assert(deregistrations(first) + deregistrations(second) =~= deregistrations(first));
    } else {
        lemma_ledger_of_concatenation(first, second.drop_last());
        assert((first + second).drop_last() =~= first + second.drop_last());
        assert((first + second).last() == second.last());
        let r = registrations(first) + registrations(second.drop_last());
        let d = deregistrations(first) + deregistrations(second.drop_last());
        match second.last() {
            Command::Register(listener) => {
                assert(r.push(listener) =~= registrations(first) + registrations(
                    second.drop_last(),
                ).push(listener));
            },
            Command::Deregister(listener) => {
                assert(d.push(listener) =~= deregistrations(first) + deregistrations(
                    second.drop_last(),
                ).push(listener));
            },
            _ => {},
        }
    }
}

/// What a single command registers and removes.
proof fn lemma_ledger_of_one(a: Command)
    ensures
        registrations(seq![a]) == (match a {
            Command::Register(listener) => seq![listener],
            _ => Seq::<Listener>::empty(),
        }),
        deregistrations(seq![a]) == (match a {
            Command::Deregister(listener) => seq![listener],
            _ => Seq::<Listener>::empty(),
        }),
{
    reveal_with_fuel(registrations, 2);
    reveal_with_fuel(deregistrations, 2);
    assert(seq![a].drop_last() =~= Seq::<Command>::empty());
    assert(seq![a].last() == a);
    match a {
        Command::Register(listener) => {
            assert(Seq::<Listener>::empty().push(listener) =~= seq![listener]);
        },
        Command::Deregister(listener) => {
            assert(Seq::<Listener>::empty().push(listener) =~= seq![listener]);
        },
        _ => {},
    }
}

/// Committing a position registers and removes nothing.
proof fn lemma_ledger_of_commit(config: Config, state: State, sample: Sample)
    ensures
        registrations(committed(config, state, sample).commands) == Seq::<Listener>::empty(),
        deregistrations(committed(config, state, sample).commands) == Seq::<Listener>::empty(),
{
    let commands = committed(config, state, sample).commands;
    if commands.len() > 0 {
        lemma_ledger_of_one(commands[0]);
        assert(commands =~= seq![commands[0]]);
    } else {
        assert(commands =~= Seq::<Command>::empty());
    }
}

/// Whether an event is a move of the pointer.
pub open spec fn is_move(event: Event) -> bool {
    event is TouchMove || event is MouseMove
}

/// The run of a single event is its step.
proof fn lemma_run_of_one(config: Config, state: State, event: Event)
    ensures
        run(config, state, seq![event]) == step(config, state, event),
{
    reveal_with_fuel(run, 2);
    assert(seq![event].drop_last() =~= Seq::<Event>::empty());
    assert(seq![event].last() == event);
    assert(Seq::<Command>::empty() + step(config, state, event).commands =~= step(
        config,
        state,
        event,
    ).commands);
}

/// A move registers and removes nothing, leaves the listeners as they
/// are, and does not bring the divider to rest.
proof fn lemma_move_keeps_listeners(config: Config, state: State, event: Event)
    requires
        is_move(event),
    ensures
        step(config, state, event).state.listeners == state.listeners,
        registrations(step(config, state, event).commands) == Seq::<Listener>::empty(),
        deregistrations(step(config, state, event).commands) == Seq::<Listener>::empty(),
        state.is_sliding ==> step(config, state, event).state.is_sliding,
{
    let sample = match event {
        Event::TouchMove(sample) => sample,
        Event::MouseMove(sample) => sample,
        _ => arbitrary(),
    };
    lemma_ledger_of_commit(config, state, sample);
    lemma_ledger_of_commit(config, State { is_sliding: true, ..state }, sample);
    assert(registrations(Seq::<Command>::empty()) == Seq::<Listener>::empty());
    assert(deregistrations(Seq::<Command>::empty()) == Seq::<Listener>::empty());
}

/// Moves that follow a run register and remove nothing, leave the
/// listeners as the run left them, and do not bring the divider to rest.
proof fn lemma_moves_keep_listeners(
    config: Config,
    state: State,
    start: Seq<Event>,
    moves: Seq<Event>,
    count: int,
)
    requires
        forall|i: int| 0 <= i < moves.len() ==> is_move(#[trigger] moves[i]),
        0 <= count <= moves.len(),
    ensures
        ({
            let before = run(config, state, start);
            let after = run(config, state, start + moves.take(count));
            &&& after.state.listeners == before.state.listeners
            &&& registrations(after.commands) == registrations(before.commands)
            &&& deregistrations(after.commands) == deregistrations(before.commands)
            &&& before.state.is_sliding ==> after.state.is_sliding
        }),
    decreases count,
{
    if count == 0 {
        assert(start + moves.take(0) =~= start);
    } else {
        lemma_moves_keep_listeners(config, state, start, moves, count - 1);
        let events = start + moves.take(count);
        assert(events.drop_last() =~= start + moves.take(count - 1));
        assert(events.last() == moves[count - 1]);
        let so_far = run(config, state, events.drop_last());
        let taken = step(config, so_far.state, events.last());
        lemma_move_keeps_listeners(config, so_far.state, events.last());
        lemma_ledger_of_concatenation(so_far.commands, taken.commands);
        assert(registrations(so_far.commands) + Seq::<Listener>::empty() =~= registrations(
            so_far.commands,
        ));
        assert(deregistrations(so_far.commands) + Seq::<Listener>::empty() =~= deregistrations(
            so_far.commands,
        ));
    }
}

/// Whether an event ends an interaction, given the listeners of the
/// wiring: its listener is registered.
pub open spec fn ends_interaction(event: Event, listeners: Listeners) -> bool {
    ||| event is TouchEnd && listeners.touch_end
    ||| event is MouseUp && listeners.mouse_up
    ||| event is MouseLeave && listeners.mouse_leave
}

/// Listener symmetry of a drag. Where a run of events starts with one that
/// registers the global move listener of a device and nothing else, goes
/// on with moves, and ends with an event that releases the divider, the
/// run registers exactly that listener and removes exactly that
/// registration; afterwards the listeners are those from before the run,
/// and the divider is at rest.
proof fn lemma_drag_is_symmetric(
    config: Config,
    state: State,
    start: Event,
    moves: Seq<Event>,
    end: Event,
    modality: Modality,
)
    requires
        state.listeners.moving is None,
        forall|i: int| 0 <= i < moves.len() ==> is_move(#[trigger] moves[i]),
        step(config, state, start).state.listeners == (Listeners {
            moving: Some(modality),
            ..state.listeners
        }),
        registrations(step(config, state, start).commands) == seq![move_listener(modality)],
        deregistrations(step(config, state, start).commands) == Seq::<Listener>::empty(),
        ends_interaction(end, state.listeners),
    ensures
        ({
            let outcome = run(config, state, seq![start] + moves + seq![end]);
            &&& registrations(outcome.commands) == seq![move_listener(modality)]
            &&& deregistrations(outcome.commands) == seq![move_listener(modality)]
            &&& outcome.state.listeners == state.listeners
            &&& !outcome.state.is_sliding
        }),
{
    let whole = seq![start] + moves + seq![end];
    lemma_run_of_one(config, state, start);
    lemma_moves_keep_listeners(config, state, seq![start], moves, moves.len() as int);
    assert(moves.take(moves.len() as int) =~= moves);
    assert(whole.drop_last() =~= seq![start] + moves);
    assert(whole.last() == end);
    let before = run(config, state, seq![start] + moves);
    let taken = step(config, before.state, end);
    assert(taken == released(before.state));
    assert(taken.commands =~= seq![Command::Deregister(move_listener(modality))]);
    lemma_ledger_of_one(Command::Deregister(move_listener(modality)));
    lemma_ledger_of_concatenation(before.commands, taken.commands);
    assert(registrations(before.commands) + Seq::<Listener>::empty() =~= registrations(
        before.commands,
    ));
    assert(Seq::<Listener>::empty() + seq![move_listener(modality)] =~= seq![
        move_listener(modality),
    ]);
}

/// Listener symmetry of a drag by touch. Where touch is wired and no
/// interaction is under way, a touch that starts, moves any number of
/// times and ends has exactly one listener registered, the global touch
/// move listener, and exactly that registration removed; afterwards the
/// listeners are those from before the drag, and the divider is at rest.
pub proof fn lemma_touch_drag_is_symmetric(
    config: Config,
    state: State,
    first: Sample,
    moves: Seq<Sample>,
)
    requires
        state.listeners.touch_start,
        state.listeners.touch_end,
        state.listeners.moving is None,
    ensures
        ({
            let outcome = run(config, state, touch_drag(first, moves));
            &&& registrations(outcome.commands) == seq![Listener::GlobalTouchMove]
            &&& deregistrations(outcome.commands) == seq![Listener::GlobalTouchMove]
            &&& outcome.state.listeners == state.listeners
            &&& !outcome.state.is_sliding
        }),
{
    let start = Event::TouchStart(first);
    let sliding = State { is_sliding: true, ..state };
    let moved = committed(config, sliding, first);
    let held = grabbed(moved.state, Modality::Touch);
    let prevent = only_if(without_touches(first.pointer), Command::PreventDefault);
    lemma_ledger_of_commit(config, sliding, first);
    lemma_ledger_of_one(Command::PreventDefault);
    lemma_ledger_of_one(Command::Register(Listener::GlobalTouchMove));
    assert(held.commands =~= seq![Command::Register(Listener::GlobalTouchMove)]);
    lemma_ledger_of_concatenation(prevent, moved.commands);
    lemma_ledger_of_concatenation(prevent + moved.commands, held.commands);
    assert(registrations(step(config, state, start).commands) =~= seq![
        Listener::GlobalTouchMove,
    ]);
    assert(deregistrations(step(config, state, start).commands) =~= Seq::<Listener>::empty());
    lemma_drag_is_symmetric(
        config,
        state,
        start,
        Seq::new(moves.len(), |i: int| Event::TouchMove(moves[i])),
        Event::TouchEnd,
        Modality::Touch,
    );
}

/// Listener symmetry of a drag by mouse. Where press and drag is wired and
/// no interaction is under way, a press that is followed by any number of
/// moves and a release has exactly one listener registered, the global
/// mouse move listener, and exactly that registration removed; afterwards
/// the listeners are those from before the drag, and the divider is at
/// rest.
pub proof fn lemma_mouse_drag_is_symmetric(config: Config, state: State, moves: Seq<Sample>)
    requires
        state.listeners.mouse_down,
        state.listeners.mouse_up,
        state.listeners.moving is None,
    ensures
        ({
            let outcome = run(config, state, mouse_drag(moves));
            &&& registrations(outcome.commands) == seq![Listener::GlobalMouseMove]
            &&& deregistrations(outcome.commands) == seq![Listener::GlobalMouseMove]
            &&& outcome.state.listeners == state.listeners
            &&& !outcome.state.is_sliding
        }),
{
    lemma_ledger_of_one(Command::Register(Listener::GlobalMouseMove));
    assert(step(config, state, Event::MouseDown).commands =~= seq![
        Command::Register(Listener::GlobalMouseMove),
    ]);
    lemma_drag_is_symmetric(
        config,
        state,
        Event::MouseDown,
        Seq::new(moves.len(), |i: int| Event::MouseMove(moves[i])),
        Event::MouseUp,
        Modality::Mouse,
    );
}

} // verus!
