//! The command channel: a bounded conduit with a single slot, moving one
//! batch of commands per frame from the sketch side to the GPU side.
//!
//! The single slot is the backpressure mechanism: a new batch can only be
//! handed over once the previous one has been taken, so the sketch side
//! never runs more than one frame ahead.

use vstd::prelude::*;

use crate::command::{batch_view, Command, CommandView};

verus! {

/// A capacity-one channel of command batches.
#[derive(Debug)]
pub struct CommandChannel {
    pub slot: Option<Vec<Command>>,
}

impl CommandChannel {
    /// The batch sitting in the slot, if any.
    pub open spec fn contents(self) -> Option<Seq<CommandView>> {
        match self.slot {
            Some(b) => Some(batch_view(b@)),
            None => None,
        }
    }

    /// Hand the whole pending batch over, leaving the pending queue
    /// empty.  Fails (and changes nothing) while the previous batch has
    /// not yet been taken; a caller that must deliver retries after the
    /// consumer has drained the slot, which is exactly the blocking the
    /// real conduit performs.
    pub fn send(&mut self, queue: &mut Vec<Command>) -> (delivered: bool)
        ensures
            old(self).contents() is None ==> delivered && final(self).contents() == Some(
                batch_view(old(queue)@),
            ) && final(queue)@ =~= Seq::<Command>::empty(),
            old(self).contents() is Some ==> !delivered && final(self).contents() == old(
                self,
            ).contents() && final(queue)@ == old(queue)@,
    {
        match self.slot {
            Some(_) => false,
            None => {
                let mut batch: Vec<Command> = Vec::new();
                core::mem::swap(&mut batch, queue);
                self.slot = Some(batch);
                true
            },
        }
    }

    /// Take the batch out of the slot, freeing it for the next frame.
    pub fn receive(&mut self) -> (r: Option<Vec<Command>>)
        ensures
            final(self).contents() is None,
            (match r {
                Some(b) => old(self).contents() == Some(batch_view(b@)),
                None => old(self).contents() is None,
            }),
    {
        self.slot.take()
    }
}

/// A fresh channel with an empty slot.
pub fn make_channel() -> (c: CommandChannel)
    ensures
        c.contents() is None,
{
    CommandChannel { slot: None }
}

} // verus!
