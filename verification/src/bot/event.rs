//! What the bot does with messages and other gateway events.

use crate::bot::commands::QueueOutcome;
use crate::bot::ids::{ApplicationId, UserId};
use crate::media::url::{distinct_tweets, first_places, TweetLinks};
use vstd::prelude::*;

verus! {

/// Whether a message is meant for the bot: a person wrote it and mentions the
/// bot.
pub fn is_addressed(author_is_bot: bool, mentions: &Vec<UserId>, application: ApplicationId) -> (r:
    bool)
    ensures
        r == (!author_is_bot && exists|i: int|
            0 <= i < mentions@.len() && (#[trigger] mentions@[i]).0 == application.0),
{
    if author_is_bot {
        return false;
    }
    let mut i: usize = 0;
    while i < mentions.len()
        invariant
            i <= mentions@.len(),
            !author_is_bot,
            forall|j: int| 0 <= j < i ==> (#[trigger] mentions@[j]).0 != application.0,
        decreases mentions@.len() - i,
    {
        if mentions[i].0 == application.0 {
            return true;
        }
        i = i + 1;
    }
    false
}

/// How far a message has been worked through.
#[derive(Debug, Clone, Copy, PartialEq, Eq, Structural)]
pub enum MessagePhase {
    CheckUser,
    CheckChannel,
    LookUp,
    Enqueue,
    Over,
}

/// What to tell the channel.
#[derive(Debug)]
pub struct Notice {
    pub content: &'static str,
    /// As a reply to the message.
    pub reply: bool,
}

/// What to do next.
#[derive(Debug, Clone, Copy, PartialEq, Eq, Structural)]
pub enum MessageAction {
    CheckUser,
    CheckChannel,
    /// Ask whether the tweet of the link at this place is known.
    LookUp { place: usize },
    /// Put the link at this place into the queue.
    Enqueue { place: usize },
    Stop,
}

/// The action that follows, and what to say before it.
#[derive(Debug)]
pub struct MessageStep {
    pub notice: Option<Notice>,
    pub action: MessageAction,
}

/// The links of one message, each tweet once.
#[derive(Debug)]
pub struct MessageWalk {
    pub places: Vec<usize>,
    pub at: usize,
    pub phase: MessagePhase,
}

pub open spec fn says(step: MessageStep, text: Seq<char>, reply: bool) -> bool {
    step.notice matches Some(n) && n.content@ == text && n.reply == reply
}

impl MessageWalk {
    pub open spec fn wf(&self) -> bool {
        &&& self.at <= self.places@.len()
        &&& self.phase == MessagePhase::LookUp || self.phase == MessagePhase::Enqueue ==> self.at
            < self.places@.len()
    }

    /// Begin with a message; one that is not meant for the bot or holds no
    /// link is left alone.
    pub fn start(addressed: bool, links: &TweetLinks) -> (r: Option<Self>)
        ensures
            r is Some <==> addressed && links@.len() > 0,
            r matches Some(walk) ==> walk.wf() && walk.phase == MessagePhase::CheckUser && walk.at
                == 0 && walk.places@ == first_places(links@, links@.len() as int),
    {
        if !addressed || links.is_empty() {
            return None;
        }
        Some(
            MessageWalk {
                places: distinct_tweets(links),
                at: 0,
                phase: MessagePhase::CheckUser,
            },
        )
    }

    /// Phase and action at the current link.
    pub open spec fn at_link(&self, phase: MessagePhase, action: MessageAction) -> bool {
        if self.at < self.places@.len() {
            phase == MessagePhase::LookUp && action == (MessageAction::LookUp {
                place: self.places@[self.at as int],
            })
        } else {
            phase == MessagePhase::Over && action == MessageAction::Stop
        }
    }

    fn ask_link(&mut self) -> (action: MessageAction)
        requires
            old(self).at <= old(self).places@.len(),
        ensures
            final(self).wf(),
            final(self).places@ == old(self).places@,
            final(self).at == old(self).at,
            final(self).at_link(final(self).phase, action),
    {
        if self.at < self.places.len() {
            self.phase = MessagePhase::LookUp;
            MessageAction::LookUp { place: self.places[self.at] }
        } else {
            self.phase = MessagePhase::Over;
            MessageAction::Stop
        }
    }

    /// Whether the user is within the budget.
    pub fn on_user(&mut self, allowed: bool) -> (step: MessageStep)
        requires
            old(self).wf(),
            old(self).phase == MessagePhase::CheckUser,
        ensures
            final(self).wf(),
            final(self).places@ == old(self).places@,
            final(self).at == old(self).at,
            allowed ==> final(self).phase == MessagePhase::CheckChannel && step.action
                == MessageAction::CheckChannel && step.notice is None,
            !allowed ==> final(self).phase == MessagePhase::Over && step.action
                == MessageAction::Stop && says(
                step,
                "⏳ You're sending requests too quickly. Please slow down."@,
                true,
            ),
    {
        if !allowed {
            self.phase = MessagePhase::Over;
            return MessageStep {
                notice: Some(
                    Notice {
                        content: "⏳ You're sending requests too quickly. Please slow down.",
                        reply: true,
                    },
                ),
                action: MessageAction::Stop,
            };
        }
        self.phase = MessagePhase::CheckChannel;
        MessageStep { notice: None, action: MessageAction::CheckChannel }
    }

    /// Whether the channel is within the budget.
    pub fn on_channel(&mut self, allowed: bool) -> (step: MessageStep)
        requires
            old(self).wf(),
            old(self).phase == MessagePhase::CheckChannel,
        ensures
            final(self).wf(),
            final(self).places@ == old(self).places@,
            final(self).at == old(self).at,
            allowed ==> final(self).at_link(final(self).phase, step.action) && step.notice is None,
            !allowed ==> final(self).phase == MessagePhase::Over && step.action
                == MessageAction::Stop && says(
                step,
                "⏳ This channel is receiving too many requests. Please try again later."@,
                true,
            ),
    {
        if !allowed {
            self.phase = MessagePhase::Over;
            return MessageStep {
                notice: Some(
                    Notice {
                        content:
                            "⏳ This channel is receiving too many requests. Please try again later.",
                        reply: true,
                    },
                ),
                action: MessageAction::Stop,
            };
        }
        let action = self.ask_link();
        MessageStep { notice: None, action }
    }

    /// Whether the tweet is known: then it is skipped.
    pub fn on_lookup(&mut self, known: bool) -> (step: MessageStep)
        requires
            old(self).wf(),
            old(self).phase == MessagePhase::LookUp,
        ensures
            final(self).wf(),
            final(self).places@ == old(self).places@,
            step.notice is None,
            known ==> final(self).at == old(self).at + 1 && final(self).at_link(
                final(self).phase,
                step.action,
            ),
            !known ==> final(self).at == old(self).at && final(self).phase
                == MessagePhase::Enqueue && step.action == (MessageAction::Enqueue {
                place: old(self).places@[old(self).at as int],
            }),
    {
        let links = self.places.len();
        if known {
            assert(self.at < links);
            self.at = self.at + 1;
            let action = self.ask_link();
            return MessageStep { notice: None, action };
        }
        self.phase = MessagePhase::Enqueue;
        MessageStep { notice: None, action: MessageAction::Enqueue { place: self.places[self.at] } }
    }

    /// Whether the job got into the queue; the next link follows either way.
    pub fn on_queue(&mut self, outcome: QueueOutcome) -> (step: MessageStep)
        requires
            old(self).wf(),
            old(self).phase == MessagePhase::Enqueue,
        ensures
            final(self).wf(),
            final(self).places@ == old(self).places@,
            final(self).at == old(self).at + 1,
            final(self).at_link(final(self).phase, step.action),
            outcome == QueueOutcome::TimedOut ==> says(
                step,
                "Queue is busy right now. Please try again in a moment."@,
                false,
            ),
            outcome != QueueOutcome::TimedOut ==> step.notice is None,
    {
        let links = self.places.len();
        assert(self.at < links);
        self.at = self.at + 1;
        let action = self.ask_link();
        let notice = match outcome {
            QueueOutcome::TimedOut => Some(
                Notice {
                    content: "Queue is busy right now. Please try again in a moment.",
                    reply: false,
                },
            ),
            _ => None,
        };
        MessageStep { notice, action }
    }
}

/// What the shard brought.
#[derive(Debug, Clone, Copy, PartialEq, Eq, Structural)]
pub enum ShardInput {
    /// A signal to stop, or none can be heard any more.
    Shutdown,
    GatewayClosed,
    Event,
    ReceiveFailed,
    Ended,
}

/// What the shard's loop does.
#[derive(Debug, Clone, Copy, PartialEq, Eq, Structural)]
pub enum ShardAction {
    /// Close the shard so that its session can be resumed, then stop.
    CloseAndStop,
    Stop,
    Dispatch,
    Continue,
}

/// A closed connection or a bad frame does not end the loop: the shard
/// reconnects by itself.
pub fn shard_action(input: ShardInput) -> (action: ShardAction)
    ensures
        action == (match input {
            ShardInput::Shutdown => ShardAction::CloseAndStop,
            ShardInput::GatewayClosed => ShardAction::Continue,
            ShardInput::Event => ShardAction::Dispatch,
            ShardInput::ReceiveFailed => ShardAction::Continue,
            ShardInput::Ended => ShardAction::Stop,
        }),
{
    match input {
        ShardInput::Shutdown => ShardAction::CloseAndStop,
        ShardInput::GatewayClosed => ShardAction::Continue,
        ShardInput::Event => ShardAction::Dispatch,
        ShardInput::ReceiveFailed => ShardAction::Continue,
        ShardInput::Ended => ShardAction::Stop,
    }
}

/// Why the process stops.
#[derive(Debug, Clone, Copy, PartialEq, Eq, Structural)]
pub enum ShutdownSignal {
    CtrlC,
    Sigterm,
}

impl ShutdownSignal {
    pub fn name(self) -> (s: &'static str)
        ensures
            s@ == (match self {
                ShutdownSignal::CtrlC => "ctrl_c"@,
                ShutdownSignal::Sigterm => "sigterm"@,
            }),
    {
        match self {
            ShutdownSignal::CtrlC => "ctrl_c",
            ShutdownSignal::Sigterm => "sigterm",
        }
    }
}

/// A notice is one text, said in one way, and says nothing else.
pub proof fn lemma_notices_say_one_thing(step: MessageStep, text: Seq<char>, reply: bool, other: Seq<char>)
    requires
        says(step, text, reply),
    ensures
        step.notice is Some && step.notice->0.content@ == text && step.notice->0.reply == reply,
        says(step, other, reply) ==> other == text,
        !says(step, text, !reply),
{
}

/// The walk asks for each place of its list in turn and stops at the end.
pub proof fn lemma_walk_asks_for_each_place(
    walk: MessageWalk,
    phase: MessagePhase,
    action: MessageAction,
)
    requires
        walk.at_link(phase, action),
    ensures
        action is Stop <==> walk.at >= walk.places@.len(),
        action matches MessageAction::LookUp { place } ==> place == walk.places@[walk.at as int],
        action is Stop || action is LookUp,
        action is Stop <==> phase == MessagePhase::Over,
        action is LookUp <==> phase == MessagePhase::LookUp,
{
}

} // verus!
