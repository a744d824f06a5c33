//! Flight computer: the record shared between the sensing loop and the
//! control surface, and the commands that travel through it.

use crate::detector::Pyro;
use crate::series::read_window;
use crate::series::signed_window;
use crate::series::Sample;
use crate::word::same_number;
use crate::word::word_eq;
use crate::word::ONE;
use crate::word::TWO;
use crate::word::ZERO;
use vstd::prelude::*;

verus! {

/// Everything the flight computer shares between its sensing loop and its
/// control surface.
pub struct Data {
    /// Averaged barometric altitude.
    pub altitude: Vec<Sample>,
    pub pressure: Vec<Sample>,
    pub temperature: Vec<Sample>,
    /// Continuity of the main pyro circuit, one or zero.
    pub cont_main: Vec<Sample>,
    /// Continuity of the drogue pyro circuit, one or zero.
    pub cont_droug: Vec<Sample>,
    /// Estimated vertical velocity.
    pub vel: Vec<Sample>,
    /// Raw acceleration along each axis.
    pub x: Vec<Sample>,
    pub y: Vec<Sample>,
    pub z: Vec<Sample>,
    /// Cleared when the sensing loop has to end.
    pub is_alive: bool,
    /// Set when the operator asked to quit.
    pub do_quit: bool,
    /// Set when the operator asked to arm.
    pub arm_requested: bool,
    /// Commands waiting for the sensing loop, oldest first.
    pub cmds: Vec<(String, u32)>,
}

/// A command that the sensing loop knows, with its argument as it came.
#[derive(Debug, Clone, Copy, PartialEq, Eq, Structural)]
pub enum Command {
    Quit,
    Arm,
    /// Fire a pyro channel.
    Fire(Pyro),
    /// Calibrate the barometer for the altitude that the argument gives.
    ConfigBaro(u32),
}

/// The pyro channel that an argument selects: one the drogue, two the
/// main, any other number none.
pub open spec fn selected(arg: u32) -> Option<Pyro> {
    if same_number(arg, ONE) {
        Some(Pyro::Drogue)
    } else if same_number(arg, TWO) {
        Some(Pyro::Main)
    } else {
        None
    }
}

/// The command that a name and an argument stand for, if the name is
/// known and, for `fire`, the argument selects a channel.
pub open spec fn command_of(name: Seq<char>, arg: u32) -> Option<Command> {
    if name == "quit"@ {
        Some(Command::Quit)
    } else if name == "arm"@ {
        Some(Command::Arm)
    } else if name == "fire"@ {
        match selected(arg) {
            Some(p) => Some(Command::Fire(p)),
            None => None,
        }
    } else if name == "config_baro"@ {
        Some(Command::ConfigBaro(arg))
    } else {
        None
    }
}

/// The known commands among `cmds`, in their order; the others are
/// passed over.
pub open spec fn recognised(cmds: Seq<(Seq<char>, u32)>) -> Seq<Command>
    decreases cmds.len(),
{
    if cmds.len() == 0 {
        Seq::empty()
    } else {
        let before = recognised(cmds.drop_last());
        match command_of(cmds.last().0, cmds.last().1) {
            Some(c) => before.push(c),
            None => before,
        }
    }
}

/// The word that a continuity flag is recorded as: one if the circuit is
/// intact, zero if not.
pub open spec fn flag_word(intact: bool) -> u32 {
    if intact {
        ONE
    } else {
        ZERO
    }
}

impl Data {
    /// The queued commands as plain values, oldest first.
    pub open spec fn commands(&self) -> Seq<(Seq<char>, u32)> {
        Seq::new(self.cmds@.len(), |i: int| (self.cmds@[i].0@, self.cmds@[i].1))
    }

    /// The channel that a field name stands for; an unknown name stands
    /// for a channel without samples.
    pub open spec fn channel(&self, field: Seq<char>) -> Seq<Sample> {
        if field == "alt"@ {
            self.altitude@
        } else if field == "temp"@ {
            self.temperature@
        } else if field == "pres"@ {
            self.pressure@
        } else if field == "cont_main"@ {
            self.cont_main@
        } else if field == "cont_droug"@ {
            self.cont_droug@
        } else if field == "vel"@ {
            self.vel@
        } else if field == "x"@ {
            self.x@
        } else if field == "y"@ {
            self.y@
        } else if field == "z"@ {
            self.z@
        } else {
            Seq::empty()
        }
    }

    /// The two records hold the same samples in every channel.
    pub open spec fn same_channels(&self, other: &Data) -> bool {
        &&& self.altitude@ == other.altitude@
        &&& self.pressure@ == other.pressure@
        &&& self.temperature@ == other.temperature@
        &&& self.cont_main@ == other.cont_main@
        &&& self.cont_droug@ == other.cont_droug@
        &&& self.vel@ == other.vel@
        &&& self.x@ == other.x@
        &&& self.y@ == other.y@
        &&& self.z@ == other.z@
    }

    /// A record without samples or commands, alive, with nothing asked.
    pub fn new() -> (d: Data)
        ensures
            d.altitude@.len() == 0,
            d.pressure@.len() == 0,
            d.temperature@.len() == 0,
            d.cont_main@.len() == 0,
            d.cont_droug@.len() == 0,
            d.vel@.len() == 0,
            d.x@.len() == 0,
            d.y@.len() == 0,
            d.z@.len() == 0,
            d.is_alive,
            !d.do_quit,
            !d.arm_requested,
            d.commands().len() == 0,
    {
        Data {
            altitude: Vec::new(),
            pressure: Vec::new(),
            temperature: Vec::new(),
            cont_main: Vec::new(),
            cont_droug: Vec::new(),
            vel: Vec::new(),
            x: Vec::new(),
            y: Vec::new(),
            z: Vec::new(),
            is_alive: true,
            do_quit: false,
            arm_requested: false,
            cmds: Vec::new(),
        }
    }
}

/// Serves a read of `points` samples from the channel named `field`.
pub fn handle_api(data: &Data, field: &str, points: i32) -> (res: Vec<Sample>)
    ensures
        res@ == signed_window(data.channel(field@), points as int),
{
    if field.eq("alt") {
        read_window(&data.altitude, points)
    } else if field.eq("temp") {
        read_window(&data.temperature, points)
    } else if field.eq("pres") {
        read_window(&data.pressure, points)
    } else if field.eq("cont_main") {
        read_window(&data.cont_main, points)
    } else if field.eq("cont_droug") {
        read_window(&data.cont_droug, points)
    } else if field.eq("vel") {
        read_window(&data.vel, points)
    } else if field.eq("x") {
        read_window(&data.x, points)
    } else if field.eq("y") {
        read_window(&data.y, points)
    } else if field.eq("z") {
        read_window(&data.z, points)
    } else {
        Vec::new()
    }
}

/// Takes a command without argument and tells whether the control
/// surface has to shut down. The command joins the queue with an argument
/// of zero. `quit` also marks the record as asked to quit and no longer
/// alive, `arm` marks it as asked to arm, and both shut the control
/// surface down.
pub fn handle_cmd(data: &mut Data, cmd: &str) -> (shutdown: bool)
    ensures
        shutdown == (cmd@ == "quit"@ || cmd@ == "arm"@),
        final(data).commands() == old(data).commands().push((cmd@, ZERO)),
        final(data).do_quit == (old(data).do_quit || cmd@ == "quit"@),
        final(data).is_alive == (old(data).is_alive && cmd@ != "quit"@),
        final(data).arm_requested == (old(data).arm_requested || cmd@ == "arm"@),
        final(data).same_channels(old(data)),
{
    proof {
        reveal_strlit("quit");
        reveal_strlit("arm");
        assert("quit"@.len() != "arm"@.len());
    }
    data.cmds.push((cmd.to_owned(), ZERO));
    assert(data.commands() =~= old(data).commands().push((cmd@, ZERO)));
    if cmd.eq("quit") {
        data.do_quit = true;
        data.is_alive = false;
        true
    } else if cmd.eq("arm") {
        data.arm_requested = true;
        true
    } else {
        false
    }
}

/// Queues the command `cmd` with its argument behind those already waiting.
pub fn handle_cmd_val(data: &mut Data, cmd: &str, val: u32)
    ensures
        final(data).commands() == old(data).commands().push((cmd@, val)),
        final(data).same_channels(old(data)),
        final(data).is_alive == old(data).is_alive,
        final(data).do_quit == old(data).do_quit,
        final(data).arm_requested == old(data).arm_requested,
{
    data.cmds.push((cmd.to_owned(), val));
    assert(data.commands() =~= old(data).commands().push((cmd@, val)));
}

/// Marks the record once the control surface has stopped, and tells
/// whether it stopped for any reason other than a request to quit.
pub fn surface_stopped(data: &mut Data) -> (proceed: bool)
    ensures
        proceed == !old(data).do_quit,
        *final(data) == (Data { is_alive: false, ..*old(data) }),
{
    data.is_alive = false;
    !data.do_quit
}

/// Tells the command that a name and an argument stand for. An unknown
/// name is no command and no error, and neither is `fire` with an
/// argument that selects no channel.
pub fn dispatch(name: &str, arg: u32) -> (c: Option<Command>)
    ensures
        c == command_of(name@, arg),
{
    if name.eq("quit") {
        Some(Command::Quit)
    } else if name.eq("arm") {
        Some(Command::Arm)
    } else if name.eq("fire") {
        if word_eq(arg, ONE) {
            Some(Command::Fire(Pyro::Drogue))
        } else if word_eq(arg, TWO) {
            Some(Command::Fire(Pyro::Main))
        } else {
            None
        }
    } else if name.eq("config_baro") {
        Some(Command::ConfigBaro(arg))
    } else {
        None
    }
}

/// Empties the command queue and returns the known commands that were in
/// it, oldest first. Commands with an unknown name are dropped.
pub fn drain_commands(data: &mut Data) -> (known: Vec<Command>)
    ensures
        known@ == recognised(old(data).commands()),
        final(data).commands().len() == 0,
        final(data).same_channels(old(data)),
        final(data).is_alive == old(data).is_alive,
        final(data).do_quit == old(data).do_quit,
        final(data).arm_requested == old(data).arm_requested,
{
    let mut known: Vec<Command> = Vec::new();
    let mut k: usize = 0;
    while k < data.cmds.len()
        invariant
            k <= data.cmds.len(),
            *data == *old(data),
            known@ == recognised(old(data).commands().subrange(0, k as int)),
        decreases data.cmds.len() - k,
    {
        proof {
            let more = old(data).commands().subrange(0, k + 1);
            assert(more.drop_last() == old(data).commands().subrange(0, k as int));
            assert(more.last() == old(data).commands()[k as int]);
        }
        match dispatch(data.cmds[k].0.as_str(), data.cmds[k].1) {
            Some(c) => {
                known.push(c);
            },
            None => {},
        }
        k += 1;
    }
    assert(old(data).commands().subrange(0, k as int) == old(data).commands());
    data.cmds.clear();
    known
}

/// Applies a command that concerns the record itself: `Quit` as the
/// control surface's `quit` does, `Arm` as its `arm` does. The other
/// commands ask for work outside the record and leave it unchanged.
pub fn apply_command(data: &mut Data, c: Command)
    ensures
        *final(data) == match c {
            Command::Quit => Data { do_quit: true, is_alive: false, ..*old(data) },
            Command::Arm => Data { arm_requested: true, ..*old(data) },
            _ => *old(data),
        },
{
    match c {
        Command::Quit => {
            data.do_quit = true;
            data.is_alive = false;
        },
        Command::Arm => {
            data.arm_requested = true;
        },
        _ => {},
    }
}

/// Records one sensing cycle: the averaged altitude, the pressure and the
/// temperature, each at the time of the cycle.
pub fn log_cycle(data: &mut Data, time: u32, altitude: u32, pressure: u32, temperature: u32)
    ensures
        final(data).altitude@ == old(data).altitude@.push((time, altitude)),
        final(data).pressure@ == old(data).pressure@.push((time, pressure)),
        final(data).temperature@ == old(data).temperature@.push((time, temperature)),
        final(data).cont_main == old(data).cont_main,
        final(data).cont_droug == old(data).cont_droug,
        final(data).vel == old(data).vel,
        final(data).x == old(data).x,
        final(data).y == old(data).y,
        final(data).z == old(data).z,
        final(data).is_alive == old(data).is_alive,
        final(data).do_quit == old(data).do_quit,
        final(data).arm_requested == old(data).arm_requested,
        final(data).cmds == old(data).cmds,
{
    data.altitude.push((time, altitude));
    data.pressure.push((time, pressure));
    data.temperature.push((time, temperature));
}

/// Records the continuity of both pyro circuits at the time `time`, as
/// one for an intact circuit and zero for an open one.
pub fn log_continuity(data: &mut Data, time: u32, main: bool, drogue: bool)
    ensures
        final(data).cont_main@ == old(data).cont_main@.push((time, flag_word(main))),
        final(data).cont_droug@ == old(data).cont_droug@.push((time, flag_word(drogue))),
        final(data).altitude == old(data).altitude,
        final(data).pressure == old(data).pressure,
        final(data).temperature == old(data).temperature,
        final(data).vel == old(data).vel,
        final(data).x == old(data).x,
        final(data).y == old(data).y,
        final(data).z == old(data).z,
        final(data).is_alive == old(data).is_alive,
        final(data).do_quit == old(data).do_quit,
        final(data).arm_requested == old(data).arm_requested,
        final(data).cmds == old(data).cmds,
{
    data.cont_main.push((time, if main { ONE } else { ZERO }));
    data.cont_droug.push((time, if drogue { ONE } else { ZERO }));
}

/// Records the motion of one sensing cycle: the estimated vertical
/// velocity and the raw acceleration along each axis, each at the time of
/// the cycle.
pub fn log_motion(data: &mut Data, time: u32, vel: u32, accel: (u32, u32, u32))
    ensures
        final(data).vel@ == old(data).vel@.push((time, vel)),
        final(data).x@ == old(data).x@.push((time, accel.0)),
        final(data).y@ == old(data).y@.push((time, accel.1)),
        final(data).z@ == old(data).z@.push((time, accel.2)),
        final(data).altitude == old(data).altitude,
        final(data).pressure == old(data).pressure,
        final(data).temperature == old(data).temperature,
        final(data).cont_main == old(data).cont_main,
        final(data).cont_droug == old(data).cont_droug,
        final(data).is_alive == old(data).is_alive,
        final(data).do_quit == old(data).do_quit,
        final(data).arm_requested == old(data).arm_requested,
        final(data).cmds == old(data).cmds,
{
    data.vel.push((time, vel));
    data.x.push((time, accel.0));
    data.y.push((time, accel.1));
    data.z.push((time, accel.2));
}

/// One turn of either side at the command queue.
pub enum Turn {
    /// The control surface queues a command.
    Queue(Seq<char>, u32),
    /// The sensing loop drains the queue.
    Drain,
}

/// The commands waiting in the queue after the turns.
pub open spec fn waiting(turns: Seq<Turn>) -> Seq<(Seq<char>, u32)>
    decreases turns.len(),
{
    if turns.len() == 0 {
        Seq::empty()
    } else {
        match turns.last() {
            Turn::Queue(name, arg) => waiting(turns.drop_last()).push((name, arg)),
            Turn::Drain => Seq::empty(),
        }
    }
}

/// The commands that the sensing loop was handed over the turns, in order.
pub open spec fn handed(turns: Seq<Turn>) -> Seq<Command>
    decreases turns.len(),
{
    if turns.len() == 0 {
        Seq::empty()
    } else {
        match turns.last() {
            Turn::Queue(_, _) => handed(turns.drop_last()),
            Turn::Drain => handed(turns.drop_last()) + recognised(waiting(turns.drop_last())),
        }
    }
}

/// The commands that the control surface queued over the turns, in order.
pub open spec fn queued(turns: Seq<Turn>) -> Seq<(Seq<char>, u32)>
    decreases turns.len(),
{
    if turns.len() == 0 {
        Seq::empty()
    } else {
        match turns.last() {
            Turn::Queue(name, arg) => queued(turns.drop_last()).push((name, arg)),
            Turn::Drain => queued(turns.drop_last()),
        }
    }
}

/// No command is lost on its way through the queue, and none overtakes
/// another: what draining returns after one more command was queued is
/// what it would have returned before, followed by that command if its
/// name is known.
pub proof fn lemma_queue_keeps_order(cmds: Seq<(Seq<char>, u32)>, name: Seq<char>, arg: u32)
    ensures
        recognised(cmds.push((name, arg))) == match command_of(name, arg) {
            Some(c) => recognised(cmds).push(c),
            None => recognised(cmds),
        },
{
    assert(cmds.push((name, arg)).drop_last() == cmds);
}

/// However the turns of the two sides fall, every known command that was
/// queued reaches the sensing loop, once and in the order it was queued:
/// what was handed over, followed by the known commands still waiting,
/// is the known commands among all that were queued.
pub proof fn lemma_no_command_lost(turns: Seq<Turn>)
    ensures
        handed(turns) + recognised(waiting(turns)) == recognised(queued(turns)),
    decreases turns.len(),
{
    if turns.len() == 0 {
        assert(handed(turns) + recognised(waiting(turns)) == recognised(queued(turns)));
    } else {
        let before = turns.drop_last();
        lemma_no_command_lost(before);
        match turns.last() {
            Turn::Queue(name, arg) => {
                lemma_queue_keeps_order(waiting(before), name, arg);
                lemma_queue_keeps_order(queued(before), name, arg);
                match command_of(name, arg) {
                    Some(c) => {
                        assert(handed(before) + recognised(waiting(before)).push(c) == (handed(
                            before,
                        ) + recognised(waiting(before))).push(c));
                    },
                    None => {},
                }
            },
            Turn::Drain => {
                assert(recognised(waiting(turns)) == Seq::<Command>::empty());
                assert(handed(turns) + Seq::<Command>::empty() == handed(turns));
            },
        }
    }
}

} // verus!
