//! Ground station: the record that the radio loop fills and the control
//! surface reads, and the decisions of both.

use crate::protocol::decode_frame;
use crate::protocol::frame_of;
use crate::protocol::Frame;
use crate::protocol::FRAME_SIZE;
use crate::series::read_window;
use crate::series::signed_window;
use crate::series::Sample;
use crate::word::same_number;
use crate::word::word_eq;
use crate::word::ONE;
use crate::word::ZERO;
use vstd::prelude::*;

verus! {

/// Everything the ground station shares between its radio loop and its
/// control surface.
pub struct Data {
    pub altitude: Vec<Sample>,
    pub w: Vec<Sample>,
    pub x: Vec<Sample>,
    pub y: Vec<Sample>,
    pub z: Vec<Sample>,
    pub vel: Vec<Sample>,
    pub balt: Vec<Sample>,
    /// Cleared once the control surface has stopped; the radio loop ends
    /// when it sees this.
    pub is_alive: bool,
    /// Set when the operator asked to quit.
    pub do_quit: bool,
    /// Commands waiting for the radio loop, oldest first.
    pub cmds: Vec<(String, u32)>,
}

impl Data {
    /// The queued commands as plain values, oldest first.
    pub open spec fn commands(&self) -> Seq<(Seq<char>, u32)> {
        Seq::new(self.cmds@.len(), |i: int| (self.cmds@[i].0@, self.cmds@[i].1))
    }

    /// The channel that a field name stands for; an unknown name stands
    /// for a channel without samples.
    pub open spec fn channel(&self, field: Seq<char>) -> Seq<Sample> {
        if field == "alt"@ {
            self.altitude@
        } else if field == "w"@ {
            self.w@
        } else if field == "x"@ {
            self.x@
        } else if field == "y"@ {
            self.y@
        } else if field == "z"@ {
            self.z@
        } else if field == "vel"@ {
            self.vel@
        } else if field == "balt"@ {
            self.balt@
        } else {
            Seq::empty()
        }
    }

    /// The two records hold the same samples in every channel.
    pub open spec fn same_channels(&self, other: &Data) -> bool {
        &&& self.altitude@ == other.altitude@
        &&& self.w@ == other.w@
        &&& self.x@ == other.x@
        &&& self.y@ == other.y@
        &&& self.z@ == other.z@
        &&& self.vel@ == other.vel@
        &&& self.balt@ == other.balt@
    }

    /// A record without samples or commands, alive and not asked to quit.
    pub fn new() -> (d: Data)
        ensures
            d.altitude@.len() == 0,
            d.w@.len() == 0,
            d.x@.len() == 0,
            d.y@.len() == 0,
            d.z@.len() == 0,
            d.vel@.len() == 0,
            d.balt@.len() == 0,
            d.is_alive,
            !d.do_quit,
            d.commands().len() == 0,
    {
        Data {
            altitude: Vec::new(),
            w: Vec::new(),
            x: Vec::new(),
            y: Vec::new(),
            z: Vec::new(),
            vel: Vec::new(),
            balt: Vec::new(),
            is_alive: true,
            do_quit: false,
            cmds: Vec::new(),
        }
    }
}

/// Serves a read of `points` samples from the channel named `field`.
pub fn handle_api(data: &Data, field: &str, points: i32) -> (res: Vec<Sample>)
    ensures
        res@ == signed_window(data.channel(field@), points as int),
{
    if field.eq("alt") {
        read_window(&data.altitude, points)
    } else if field.eq("w") {
        read_window(&data.w, points)
    } else if field.eq("x") {
        read_window(&data.x, points)
    } else if field.eq("y") {
        read_window(&data.y, points)
    } else if field.eq("z") {
        read_window(&data.z, points)
    } else if field.eq("vel") {
        read_window(&data.vel, points)
    } else if field.eq("balt") {
        read_window(&data.balt, points)
    } else {
        Vec::new()
    }
}

/// Takes a command without argument and tells whether the control
/// surface has to shut down. The command joins the queue with an argument
/// of zero. `quit` also marks the record as asked to quit and no longer
/// alive, and shuts the control surface down.
pub fn handle_cmd(data: &mut Data, cmd: &str) -> (shutdown: bool)
    ensures
        shutdown == (cmd@ == "quit"@),
        final(data).commands() == old(data).commands().push((cmd@, ZERO)),
        final(data).do_quit == (old(data).do_quit || shutdown),
        final(data).is_alive == (old(data).is_alive && !shutdown),
        final(data).same_channels(old(data)),
{
    data.cmds.push((cmd.to_owned(), ZERO));
    assert(data.commands() =~= old(data).commands().push((cmd@, ZERO)));
    if cmd.eq("quit") {
        data.do_quit = true;
        data.is_alive = false;
        true
    } else {
        false
    }
}

/// Queues the command `cmd` with its argument behind those already waiting.
pub fn handle_cmd_val(data: &mut Data, cmd: &str, val: u32)
    ensures
        final(data).commands() == old(data).commands().push((cmd@, val)),
        final(data).do_quit == old(data).do_quit,
        final(data).is_alive == old(data).is_alive,
        final(data).same_channels(old(data)),
{
    data.cmds.push((cmd.to_owned(), val));
    assert(data.commands() =~= old(data).commands().push((cmd@, val)));
}

/// Marks the record once the control surface has stopped, and tells
/// whether it stopped for any reason other than a request to quit.
pub fn surface_stopped(data: &mut Data) -> (unexpected: bool)
    ensures
        unexpected == !old(data).do_quit,
        *final(data) == (Data { is_alive: false, ..*old(data) }),
{
    data.is_alive = false;
    !data.do_quit
}

/// Consecutive polls without a frame after which the radio is restarted.
pub const MISS_LIMIT: u16 = 50;

/// Milliseconds to wait after a poll that brought no frame.
pub const IDLE_PAUSE_MS: u64 = 20;

/// Milliseconds to wait after a frame.
pub const FRAME_PAUSE_MS: u64 = 100;

/// What the radio loop remembers from one poll to the next.
#[derive(Debug, Clone, Copy, PartialEq, Eq, Structural)]
pub struct RadioLink {
    /// Polls without a frame since the last frame or restart.
    pub iter_np: u16,
    /// Time word of the last frame that was stored.
    pub last_time: u32,
    /// Restarts of the radio so far.
    pub total_restarts: i32,
}

/// What the radio loop has to do after a poll, in this order: resynchronise
/// the link, wait, restart the radio.
#[derive(Debug, Clone, Copy, PartialEq, Eq, Structural)]
pub struct LinkAction {
    pub resync: bool,
    pub pause_ms: u64,
    pub restart: bool,
}

impl Data {
    /// The record `before` with the frame `f` appended: one sample per
    /// channel, all at the frame's time.
    pub open spec fn holds_frame(&self, before: &Data, f: Frame) -> bool {
        &&& self.altitude@ == before.altitude@.push((f.time, f.alt))
        &&& self.balt@ == before.balt@.push((f.time, f.balt))
        &&& self.vel@ == before.vel@.push((f.time, f.vel))
        &&& self.w@ == before.w@.push((f.time, f.w))
        &&& self.x@ == before.x@.push((f.time, f.x))
        &&& self.y@ == before.y@.push((f.time, f.y))
        &&& self.z@ == before.z@.push((f.time, f.z))
        &&& self.is_alive == before.is_alive
        &&& self.do_quit == before.do_quit
        &&& self.cmds == before.cmds
    }
}

impl RadioLink {
    /// The link after one more poll without a frame: the count goes up,
    /// and on reaching the limit it starts over and a restart is counted.
    pub open spec fn missed(self) -> RadioLink {
        if self.iter_np >= MISS_LIMIT - 1 {
            RadioLink {
                iter_np: 0,
                last_time: self.last_time,
                total_restarts: (self.total_restarts + 1) as i32,
            }
        } else {
            RadioLink {
                iter_np: (self.iter_np + 1) as u16,
                last_time: self.last_time,
                total_restarts: self.total_restarts,
            }
        }
    }

    /// The frame `f` is news: its time is not that of the last frame stored.
    pub open spec fn is_news(self, f: Frame) -> bool {
        !same_number(f.time, self.last_time)
    }

    /// A link that has seen nothing yet.
    pub fn new() -> (link: RadioLink)
        ensures
            link == (RadioLink { iter_np: 0, last_time: 0, total_restarts: 0 }),
    {
        RadioLink { iter_np: 0, last_time: 0, total_restarts: 0 }
    }

    /// Decides what follows one poll of the radio.
    ///
    /// `packet` is what the poll returned, `None` where it failed.
    /// - A failed poll asks for a resynchronisation and changes nothing.
    /// - An empty packet counts as a miss: wait briefly and poll again.
    /// - A packet of a wrong length is dropped, counts as a miss, and the
    ///   link is resynchronised.
    /// - A frame ends the run of misses. Its samples are stored unless its
    ///   time equals that of the last frame stored.
    /// The miss that reaches [`MISS_LIMIT`] asks for a restart of the radio.
    pub fn on_poll(&mut self, data: &mut Data, packet: Option<&[u8]>) -> (action: LinkAction)
        requires
            old(self).total_restarts < i32::MAX,
        ensures
            match packet {
                None => {
                    &&& action == (LinkAction { resync: true, pause_ms: 0, restart: false })
                    &&& *final(self) == *old(self)
                    &&& *final(data) == *old(data)
                },
                Some(b) => if b@.len() != FRAME_SIZE {
                    &&& action == (LinkAction {
                        resync: b@.len() != 0,
                        pause_ms: IDLE_PAUSE_MS,
                        restart: old(self).iter_np >= MISS_LIMIT - 1,
                    })
                    &&& *final(self) == old(self).missed()
                    &&& *final(data) == *old(data)
                } else {
                    &&& action == (LinkAction {
                        resync: false,
                        pause_ms: FRAME_PAUSE_MS,
                        restart: false,
                    })
                    &&& final(self).iter_np == 0
                    &&& final(self).total_restarts == old(self).total_restarts
                    &&& if old(self).is_news(frame_of(b@)) {
                        &&& final(self).last_time == frame_of(b@).time
                        &&& final(data).holds_frame(old(data), frame_of(b@))
                    } else {
                        &&& final(self).last_time == old(self).last_time
                        &&& *final(data) == *old(data)
                    }
                },
            },
    {
        let buf = match packet {
            Some(b) => b,
            None => {
                return LinkAction { resync: true, pause_ms: 0, restart: false };
            },
        };
        let frame = match decode_frame(buf) {
            Some(f) => f,
            None => {
                let restart = self.iter_np >= MISS_LIMIT - 1;
                if restart {
                    self.total_restarts += 1;
                    self.iter_np = 0;
                } else {
                    self.iter_np += 1;
                }
                return LinkAction { resync: buf.len() != 0, pause_ms: IDLE_PAUSE_MS, restart };
            },
        };

        if !word_eq(frame.time, self.last_time) {
            data.altitude.push((frame.time, frame.alt));
            data.balt.push((frame.time, frame.balt));
            data.vel.push((frame.time, frame.vel));

            data.w.push((frame.time, frame.w));
            data.x.push((frame.time, frame.x));
            data.y.push((frame.time, frame.y));
            data.z.push((frame.time, frame.z));

            self.last_time = frame.time;
        }
        self.iter_np = 0;
        LinkAction { resync: false, pause_ms: FRAME_PAUSE_MS, restart: false }
    }
}

/// Milliseconds to wait after a replayed sample.
pub const REPLAY_PAUSE_MS: u64 = 200;

/// Some queued command is `sim` with the argument one.
pub open spec fn asks_to_start(cmds: Seq<(Seq<char>, u32)>) -> bool {
    exists|k: int|
        0 <= k < cmds.len() && #[trigger] cmds[k].0 == "sim"@ && same_number(cmds[k].1, ONE)
}

/// Plays a recorded flight into the altitude channel, one sample per step,
/// once the operator asks for it.
pub struct Replay {
    /// The recorded samples, oldest first.
    pub trace: Vec<Sample>,
    /// Index of the next sample to play.
    pub i: usize,
    /// Whether the replay is running.
    pub start: bool,
}

impl Replay {
    /// A replay of `trace` that waits for its start command.
    pub fn new(trace: Vec<Sample>) -> (r: Replay)
        ensures
            r.trace == trace,
            r.i == 0,
            !r.start,
    {
        Replay { trace, i: 0, start: false }
    }

    /// One turn of the replay loop: looks through the queued commands for
    /// a request to start, empties the queue, and plays the next sample if
    /// the replay is running. The replay stops after its last sample, and
    /// at once when there is no sample to play. Returns whether a sample
    /// was played.
    pub fn step(&mut self, data: &mut Data) -> (played: bool)
        ensures
            final(data).commands().len() == 0,
            final(data).is_alive == old(data).is_alive,
            final(data).do_quit == old(data).do_quit,
            final(data).w == old(data).w,
            final(data).x == old(data).x,
            final(data).y == old(data).y,
            final(data).z == old(data).z,
            final(data).vel == old(data).vel,
            final(data).balt == old(data).balt,
            final(self).trace == old(self).trace,
            ({
                let running = old(self).start || asks_to_start(old(data).commands());
                let n = old(self).trace@.len();
                let i = old(self).i;
                if running && i < n {
                    &&& played
                    &&& final(data).altitude@ == old(data).altitude@.push(
                        old(self).trace@[i as int],
                    )
                    &&& final(self).start == (i + 1 < n)
                    &&& final(self).i == if i + 1 < n { i + 1 } else { 0 }
                } else {
                    &&& !played
                    &&& final(data).altitude == old(data).altitude
                    &&& !final(self).start
                    &&& final(self).i == if running { 0 } else { i }
                }
            }),
    {
        let mut k: usize = 0;
        while k < data.cmds.len()
            invariant
                k <= data.cmds.len(),
                *data == *old(data),
                self.trace == old(self).trace,
                self.i == old(self).i,
                self.start == (old(self).start || asks_to_start(
                    old(data).commands().subrange(0, k as int),
                )),
            decreases data.cmds.len() - k,
        {
            let ghost seen = old(data).commands().subrange(0, k as int);
            let ghost more = old(data).commands().subrange(0, k + 1);
            let wanted = data.cmds[k].0.as_str().eq("sim") && word_eq(data.cmds[k].1, ONE);
            if wanted {
                self.start = true;
            }
            proof {
                assert(more[k as int] == old(data).commands()[k as int]);
                if wanted {
                    assert(more[k as int].0 == "sim"@);
                    assert(asks_to_start(more));
                }
                if asks_to_start(seen) {
                    let j = choose|j: int|
                        0 <= j < seen.len() && #[trigger] seen[j].0 == "sim"@ && same_number(
                            seen[j].1,
                            ONE,
                        );
                    assert(more[j] == seen[j]);
                    assert(asks_to_start(more));
                }
                if asks_to_start(more) && !wanted {
                    let j = choose|j: int|
                        0 <= j < more.len() && #[trigger] more[j].0 == "sim"@ && same_number(
                            more[j].1,
                            ONE,
                        );
                    assert(j < k);
                    assert(seen[j] == more[j]);
                    assert(asks_to_start(seen));
                }
            }
            k += 1;
        }
        assert(old(data).commands().subrange(0, k as int) == old(data).commands());
        data.cmds.clear();

        if !self.start {
            return false;
        }
        if self.i < self.trace.len() {
            data.altitude.push(self.trace[self.i]);
            self.i += 1;
            if self.i >= self.trace.len() {
                self.i = 0;
                self.start = false;
            }
            true
        } else {
            self.i = 0;
            self.start = false;
            false
        }
    }
}

} // verus!
