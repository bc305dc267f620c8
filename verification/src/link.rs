//! The link to the stream: what is done when it opens, is lost or is to be made anew.
use vstd::prelude::*;

verus! {

/// The shortest pause before the stream is connected again, in seconds.
pub const SHORTEST_PAUSE: u64 = 1;

/// The longest pause before the stream is connected again, in seconds.
pub const LONGEST_PAUSE: u64 = 30;

/// What happens to the link.
#[derive(Clone, Copy, Debug)]
pub enum LinkEvent {
    Opened,
    /// It could not be opened, or was closed.
    Lost,
    /// Everything was forgotten, and the link is to be made anew.
    Flushed,
}

/// What is to be done then.
#[derive(Clone, Copy, Debug)]
pub enum LinkAction {
    /// Ask for the symbols that are tracked, and pass on what comes.
    Serve,
    /// Wait for so many seconds, and connect again.
    Wait(u64),
    /// Drop the connection, and connect again at once.
    Reconnect,
    /// Do not connect again.
    Stop,
}

/// The state of the link.
#[derive(Clone, Copy, Debug)]
pub struct Link {
    /// The pause after the next loss, in seconds.
    pub pause: u64,
}

/// The pause after one more loss: twice as long, up to the longest.
pub open spec fn longer(pause: u64) -> u64 {
    if 2 * pause <= LONGEST_PAUSE {
        (2 * pause) as u64
    } else {
        LONGEST_PAUSE
    }
}

impl Link {
    /// Whether the pause lies between the shortest and the longest.
    pub open spec fn wf(self) -> bool {
        SHORTEST_PAUSE <= self.pause <= LONGEST_PAUSE
    }

    /// The link after an event, and what is to be done. A link that opens starts over
    /// with the shortest pause; one that is lost is connected again after its pause, and
    /// one that is flushed is dropped and connected again at once, starting over too, as
    /// long as the engine runs.
    pub open spec fn after(self, event: LinkEvent, running: bool) -> (Link, LinkAction) {
        match event {
            LinkEvent::Opened => (Link { pause: SHORTEST_PAUSE }, LinkAction::Serve),
            LinkEvent::Lost => if running {
                (Link { pause: longer(self.pause) }, LinkAction::Wait(self.pause))
            } else {
                (self, LinkAction::Stop)
            },
            LinkEvent::Flushed => if running {
                (Link { pause: SHORTEST_PAUSE }, LinkAction::Reconnect)
            } else {
                (self, LinkAction::Stop)
            },
        }
    }

    /// A link that was not opened yet.
    pub fn new() -> (r: Link)
        ensures
            r == (Link { pause: SHORTEST_PAUSE }),
            r.wf(),
    {
        Link { pause: SHORTEST_PAUSE }
    }

    /// See [`Link::after`].
    pub fn follow(&mut self, event: LinkEvent, running: bool) -> (action: LinkAction)
        requires
            old(self).wf(),
        ensures
            *final(self) == old(self).after(event, running).0,
            action == old(self).after(event, running).1,
            final(self).wf(),
    {
        match event {
            LinkEvent::Opened => {
                self.pause = SHORTEST_PAUSE;
                LinkAction::Serve
            },
            LinkEvent::Lost => {
                if !running {
                    return LinkAction::Stop;
                }
                let pause: u64 = self.pause;
                self.pause = if pause * 2 <= LONGEST_PAUSE {
                    pause * 2
                } else {
                    LONGEST_PAUSE
                };
                LinkAction::Wait(pause)
            },
            LinkEvent::Flushed => {
                if !running {
                    return LinkAction::Stop;
                }
                self.pause = SHORTEST_PAUSE;
                LinkAction::Reconnect
            },
        }
    }
}

/// A link after it was lost so many times in a row.
pub open spec fn lost(link: Link, times: nat) -> Link
    decreases times,
{
    if times == 0 {
        link
    } else {
        lost(link, (times - 1) as nat).after(LinkEvent::Lost, true).0
    }
}

/// The pauses of a link that opened or was flushed, and is then lost again and again: 1, 2,
/// 4, 8 and 16 seconds, and 30 from then on.
pub proof fn lemma_pauses(link: Link, times: nat)
    ensures
        link.after(LinkEvent::Flushed, true).0 == link.after(LinkEvent::Opened, true).0,
        ({
            let p = lost(link.after(LinkEvent::Opened, true).0, times).pause;
            &&& times == 0 ==> p == 1
            &&& times == 1 ==> p == 2
            &&& times == 2 ==> p == 4
            &&& times == 3 ==> p == 8
            &&& times == 4 ==> p == 16
            &&& times >= 5 ==> p == 30
        }),
    decreases times,
{
    if times > 0 {
        lemma_pauses(link, (times - 1) as nat);
    }
}

} // verus!
