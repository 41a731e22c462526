//! What one turn of the event loop decides: signals, reads, writes, synchronized output and frames.

use vstd::prelude::*;

verus! {

/// How many bytes of output are read before the loop draws again.
pub const READ_BUDGET: usize = 65536;

/// How long a program may hold back frames, in milliseconds.
pub const SYNC_LIMIT_MS: u64 = 150;

/// How long a turn waits while a program holds back frames, in milliseconds.
pub const SYNC_TURN_MS: u64 = 50;

/// How long a write to the program may take, in milliseconds.
pub const WRITE_LIMIT_MS: u64 = 100;

/// The signals that the loop listens to.
#[derive(Debug, Clone, Copy, PartialEq, Eq, Structural)]
pub enum LoopSignal {
    ChildChanged,
    Interrupt,
    Terminate,
    User1,
    Other,
}

/// What a signal asks for.
#[derive(Debug, Clone, Copy, PartialEq, Eq, Structural)]
pub enum SignalAction {
    Nothing,
    Stop,
    ReloadConfig,
}

/// What a signal asks for: the loop stops with its program or on request, and reloads its
/// configuration on the first user signal.
pub fn on_signal(signal: LoopSignal, child_alive: bool) -> (r: SignalAction)
    ensures
        r == (match signal {
            LoopSignal::ChildChanged => if child_alive {
                SignalAction::Nothing
            } else {
                SignalAction::Stop
            },
            LoopSignal::Interrupt | LoopSignal::Terminate => SignalAction::Stop,
            LoopSignal::User1 => SignalAction::ReloadConfig,
            LoopSignal::Other => SignalAction::Nothing,
        }),
{
    match signal {
        LoopSignal::ChildChanged => if child_alive {
            SignalAction::Nothing
        } else {
            SignalAction::Stop
        },
        LoopSignal::Interrupt | LoopSignal::Terminate => SignalAction::Stop,
        LoopSignal::User1 => SignalAction::ReloadConfig,
        LoopSignal::Other => SignalAction::Nothing,
    }
}

/// How long a turn waits for events; without a limit it waits until one comes.
pub fn dispatch_timeout(synchronized: bool) -> (r: Option<u64>)
    ensures
        r == (if synchronized {
            Some(SYNC_TURN_MS)
        } else {
            None
        }),
{
    if synchronized {
        Some(SYNC_TURN_MS)
    } else {
        None
    }
}

/// What a read from the program gave.
#[derive(Debug, Clone, Copy, PartialEq, Eq, Structural)]
pub enum ReadEvent {
    Bytes(usize),
    WouldBlock,
    Failed,
}

/// What follows a read.
#[derive(Debug, Clone, Copy, PartialEq, Eq, Structural)]
pub enum ReadStep {
    /// Process the bytes and read on.
    Continue,
    /// Process the bytes and leave the rest for the next turn.
    Pause,
    /// Nothing is left for now.
    Wait,
    /// The program is gone.
    Stop,
}

/// What follows a read, and how many bytes the turn has read with it. The end of the output and
/// every failure but a lack of data mean that the program is gone.
pub fn on_read(total: usize, event: ReadEvent) -> (r: (usize, ReadStep))
    requires
        total < READ_BUDGET,
        event matches ReadEvent::Bytes(n) ==> n <= READ_BUDGET,
    ensures
        r == (match event {
            ReadEvent::Bytes(n) if n > 0 => (
                (total + n) as usize,
                if total + n >= READ_BUDGET {
                    ReadStep::Pause
                } else {
                    ReadStep::Continue
                },
            ),
            ReadEvent::WouldBlock => (total, ReadStep::Wait),
            _ => (total, ReadStep::Stop),
        }),
{
    match event {
        ReadEvent::Bytes(n) => {
            if n == 0 {
                return (total, ReadStep::Stop);
            }
            let sum: usize = total + n;
            if sum >= READ_BUDGET {
                (sum, ReadStep::Pause)
            } else {
                (sum, ReadStep::Continue)
            }
        },
        ReadEvent::WouldBlock => (total, ReadStep::Wait),
        ReadEvent::Failed => (total, ReadStep::Stop),
    }
}

/// What a write to the program gave.
#[derive(Debug, Clone, Copy, PartialEq, Eq, Structural)]
pub enum WriteEvent {
    Wrote(usize),
    Interrupted,
    WouldBlock,
    Failed,
}

/// What follows a write.
#[derive(Debug, Clone, Copy, PartialEq, Eq, Structural)]
pub enum WriteStep {
    /// Write what lies behind a number of bytes.
    Advance(usize),
    /// Write the same bytes again.
    Retry,
    /// Wait until the program can take bytes, and write the same bytes again.
    Wait,
    /// Give up.
    Stop,
}

/// Tells whether writing goes on: while bytes are left and the time is not used up.
pub fn may_write(left: usize, elapsed_ms: u64) -> (r: bool)
    ensures
        r == (left > 0 && elapsed_ms < WRITE_LIMIT_MS),
{
    left > 0 && elapsed_ms < WRITE_LIMIT_MS
}

/// What follows a write.
pub fn on_write(event: WriteEvent) -> (r: WriteStep)
    ensures
        r == (match event {
            WriteEvent::Wrote(n) if n > 0 => WriteStep::Advance(n),
            WriteEvent::Interrupted => WriteStep::Retry,
            WriteEvent::WouldBlock => WriteStep::Wait,
            _ => WriteStep::Stop,
        }),
{
    match event {
        WriteEvent::Wrote(n) => if n > 0 {
            WriteStep::Advance(n)
        } else {
            WriteStep::Stop
        },
        WriteEvent::Interrupted => WriteStep::Retry,
        WriteEvent::WouldBlock => WriteStep::Wait,
        WriteEvent::Failed => WriteStep::Stop,
    }
}

/// Keeps the time since a program began to hold back frames.
#[derive(Debug, Clone, Copy, PartialEq, Eq, Structural)]
pub struct SyncTracker {
    pub start: Option<u64>,
    pub last_gen: u64,
}

impl SyncTracker {
    pub fn new() -> (r: Self)
        ensures
            r == (SyncTracker { start: None, last_gen: 0 }),
    {
        SyncTracker { start: None, last_gen: 0 }
    }

    /// When the program began to hold back frames, as of a turn of the loop. Each new request
    /// begins anew.
    pub open spec fn began(self, generation: u64, now: u64) -> u64 {
        match self.start {
            Some(start) if generation == self.last_gen => start,
            _ => now,
        }
    }

    /// Whether frames are held back in a turn of the loop.
    pub open spec fn holding(self, generation: u64, synchronized: bool, now: u64) -> bool {
        synchronized && now - self.began(generation, now) <= SYNC_LIMIT_MS
    }

    /// Notes a turn of the loop at a time in milliseconds, and tells whether frames are held back.
    /// A program that holds them back too long is overruled.
    pub fn turn(&mut self, generation: u64, synchronized: bool, now: u64) -> (r: bool)
        ensures
            r == old(self).holding(generation, synchronized, now),
            *final(self) == (SyncTracker {
                start: if r {
                    Some(old(self).began(generation, now))
                } else {
                    None
                },
                last_gen: generation,
            }),
    {
        if generation != self.last_gen {
            self.last_gen = generation;
            self.start = Some(now);
        }
        if !synchronized {
            self.start = None;
            return false;
        }
        let start: u64 = match self.start {
            Some(start) => start,
            None => now,
        };
        if now.saturating_sub(start) > SYNC_LIMIT_MS {
            self.start = None;
            return false;
        }
        self.start = Some(start);
        true
    }
}

/// A program cannot hold back frames for longer than the limit without a new request.
pub proof fn law_frames_are_not_held_forever(t: SyncTracker, start: u64, now: u64)
    requires
        t.start == Some(start),
        now > start + SYNC_LIMIT_MS,
    ensures
        !t.holding(t.last_gen, true, now),
{
}

/// What a turn of the loop knows about frames.
#[derive(Debug, Clone, Copy, PartialEq, Eq, Structural)]
pub struct FrameState {
    pub needs_redraw: bool,
    pub sync_active: bool,
    pub frame_pending: bool,
    pub has_renderer: bool,
}

impl FrameState {
    /// Tells whether the hovered link is looked up again before a frame.
    pub fn refreshes_hover(&self) -> (r: bool)
        ensures
            r == (self.needs_redraw && !self.sync_active && !self.frame_pending),
    {
        self.needs_redraw && !self.sync_active && !self.frame_pending
    }

    /// Tells whether a frame is drawn.
    pub fn draws(&self) -> (r: bool)
        ensures
            r == (self.needs_redraw && !self.sync_active && !self.frame_pending
                && self.has_renderer),
    {
        self.refreshes_hover() && self.has_renderer
    }
}

/// Tells whether the loop begins to read from the program: once, after the compositor configured
/// the window, so that its size is known.
pub fn should_register_pty(registered: bool, configured: bool) -> (r: bool)
    ensures
        r == (!registered && configured),
{
    !registered && configured
}

/// A size asked for by a compositor, kept until the events at hand are all seen: of a burst only
/// the last size is applied.
#[derive(Debug, Clone, Copy)]
pub struct PendingConfigure {
    pub size: Option<[u32; 2]>,
    pub pending: bool,
}

impl PendingConfigure {
    pub fn new() -> (r: Self)
        ensures
            r.size is None,
            !r.pending,
    {
        PendingConfigure { size: None, pending: false }
    }

    /// Notes the size that comes with the next configure.
    pub fn propose(&mut self, size: [u32; 2])
        ensures
            final(self).size == Some(size),
            final(self).pending == old(self).pending,
    {
        self.size = Some(size);
    }

    /// Notes a configure.
    pub fn configure(&mut self)
        ensures
            final(self).size == old(self).size,
            final(self).pending,
    {
        self.pending = true;
    }

    /// Hands out the size to apply, where a configure came: the last proposed one, or the present
    /// one.
    pub fn apply(&mut self, current: [u32; 2]) -> (r: Option<[u32; 2]>)
        ensures
            r == (if !old(self).pending {
                None
            } else {
                match old(self).size {
                    Some(size) => Some(size),
                    None => Some(current),
                }
            }),
            final(self).size == (if old(self).pending {
                None
            } else {
                old(self).size
            }),
            !final(self).pending,
    {
        if !self.pending {
            return None;
        }
        self.pending = false;
        let size: Option<[u32; 2]> = self.size;
        self.size = None;
        match size {
            Some(size) => Some(size),
            None => Some(current),
        }
    }
}

} // verus!
