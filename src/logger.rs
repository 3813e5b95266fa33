use vstd::prelude::*;

use crate::writer::WriteError;

verus! {

/// Why a logger call failed.
#[derive(Debug)]
pub enum LogError {
    /// The block writer failed.
    Write(WriteError),
    /// The logger has been closed.
    Closed,
}

/// The kinds of command that producers send to the logger.
#[derive(Debug, Clone, Copy, PartialEq, Eq, Structural)]
pub enum Command {
    /// Encode a value and append it.
    Add,
    /// Make everything appended so far durable.
    Sync,
    /// Stop taking commands, finish the queued ones, then answer.
    Close,
}

/// What the logger's task observed.
#[derive(Debug, Clone, Copy, PartialEq, Eq, Structural)]
pub enum Event {
    /// A command came off the queue.
    Received(Command),
    /// The queue had nothing ready.
    Empty,
    /// The idle timer ran out before a command came.
    Timeout,
    /// The queue is closed and empty.
    Disconnected,
}

/// How the task waits for its next event.
#[derive(Debug, Clone, Copy, PartialEq, Eq, Structural)]
pub enum Wait {
    /// Take a command if one is ready, without waiting.
    Poll,
    /// Wait for a command or for the idle timer, whichever comes first.
    TimerOrCommand,
    /// Wait for a command, however long it takes.
    Command,
    /// Nothing more: the task is over.
    Stop,
}

/// What the task does about an event.
#[derive(Debug, Clone, Copy, PartialEq, Eq, Structural)]
pub enum Effect {
    Nothing,
    /// Encode the value and append it to the writer.
    Append,
    /// Sync the writer.
    Sync,
    /// Close the queue to new commands and keep the caller's reply channel.
    CloseQueue,
    /// Keep the caller's reply channel; the queue is already closed.
    KeepReply,
    /// Sync the writer a last time and answer every kept reply channel.
    Finish,
}

/// Where the logger's task stands.
#[derive(Debug, Clone, Copy, PartialEq, Eq, Structural)]
pub enum Phase {
    /// Taking the commands that are ready.
    Draining,
    /// Nothing was ready: waiting, with the idle timer running.
    Idle,
    /// The idle sync is done: waiting without a timer.
    Parked,
    Done,
}

/// The decisions of the logger's task, which owns the writer: it drains the
/// queue, syncs once after a quiet spell, and finishes once the queue is
/// closed and empty.
#[derive(Debug)]
pub struct Actor {
    pub phase: Phase,
    pub closing: bool,
    pub replies: u64,
}

impl Actor {
    pub fn new() -> (r: Self)
        ensures
            r.phase == Phase::Draining,
            !r.closing,
            r.replies == 0,
    {
        Actor { phase: Phase::Draining, closing: false, replies: 0 }
    }

    /// How to wait for the next event.
    pub fn wait(&self) -> (r: Wait)
        ensures
            self.phase == Phase::Draining ==> r == Wait::Poll,
            self.phase == Phase::Idle ==> r == Wait::TimerOrCommand,
            self.phase == Phase::Parked ==> r == Wait::Command,
            self.phase == Phase::Done ==> r == Wait::Stop,
    {
        match self.phase {
            Phase::Draining => Wait::Poll,
            Phase::Idle => Wait::TimerOrCommand,
            Phase::Parked => Wait::Command,
            Phase::Done => Wait::Stop,
        }
    }

    /// Takes one event in and says what to do about it.
    pub fn on_event(&mut self, ev: Event) -> (r: Effect)
        requires
            old(self).phase != Phase::Done,
            old(self).replies < u64::MAX,
        ensures
            ev == Event::Received(Command::Add) ==> r == Effect::Append && final(self).phase
                == Phase::Draining && final(self).closing == old(self).closing
                && final(self).replies == old(self).replies,
            ev == Event::Received(Command::Sync) ==> r == Effect::Sync && final(self).phase
                == Phase::Draining && final(self).closing == old(self).closing
                && final(self).replies == old(self).replies,
            ev == Event::Received(Command::Close) ==> r == (if old(self).closing {
                Effect::KeepReply
            } else {
                Effect::CloseQueue
            }) && final(self).phase == Phase::Draining && final(self).closing
                && final(self).replies == old(self).replies + 1,
            ev == Event::Empty ==> r == Effect::Nothing && final(self).phase == Phase::Idle
                && final(self).closing == old(self).closing && final(self).replies == old(
                self,
            ).replies,
            ev == Event::Timeout ==> r == Effect::Sync && final(self).phase == Phase::Parked
                && final(self).closing == old(self).closing && final(self).replies == old(
                self,
            ).replies,
            ev == Event::Disconnected ==> r == Effect::Finish && final(self).phase == Phase::Done
                && final(self).closing == old(self).closing && final(self).replies == old(
                self,
            ).replies,
    {
        match ev {
            Event::Received(c) => {
                self.phase = Phase::Draining;
                match c {
                    Command::Add => Effect::Append,
                    Command::Sync => Effect::Sync,
                    Command::Close => {
                        self.replies = self.replies + 1;
                        if self.closing {
                            Effect::KeepReply
                        } else {
                            self.closing = true;
                            Effect::CloseQueue
                        }
                    },
                }
            },
            Event::Empty => {
                self.phase = Phase::Idle;
                Effect::Nothing
            },
            Event::Timeout => {
                self.phase = Phase::Parked;
                Effect::Sync
            },
            Event::Disconnected => {
                self.phase = Phase::Done;
                Effect::Finish
            },
        }
    }
}

} // verus!
