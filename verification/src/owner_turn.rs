//! The course of a turn: what comes first of a command, the search for an arc,
//! the acknowledgement and the agent's run, and what ends the turn.

use vstd::prelude::*;

use crate::owner_messages::{
    AckStep, OwnerCommand, after_ack, is_bare_newarc, newarc_of, owner_command, research_topic_of,
};

verus! {

/// How far a turn has come.
#[derive(Clone, Copy, Debug, PartialEq, Eq, Structural)]
pub enum TurnState {
    /// Nothing has come in yet.
    Fresh,
    /// The arc is sought. A bare command asked for a fresh arc, and there is
    /// nothing to tell the agent.
    Routing { bare: bool },
    /// A bare command is acknowledged, for the first time or again.
    Acknowledging { attempt: u8 },
    /// The agent runs.
    Running,
    Ended,
}

/// What happened.
#[derive(Clone, Debug, PartialEq, Eq)]
pub enum TurnEvent {
    /// The owner's message came in.
    Message(String),
    /// The arc is settled, even if only as none.
    Placed,
    /// The arcs cannot be read.
    Unreadable,
    /// An acknowledgement was sent, or failed to be.
    Sent(bool),
    /// The agent's run came to an end.
    AgentDone,
}

/// What to do next.
#[derive(Clone, Debug, PartialEq, Eq)]
pub enum TurnAction {
    /// Offer research on a topic, which may be empty.
    OfferResearch(String),
    /// Find the arc of a message, or make a fresh one.
    FindArc { force_new: bool, text: String },
    /// Tell the owner that their arcs cannot be read.
    TellUnreadable,
    /// Acknowledge the command after so many milliseconds.
    Acknowledge { after_ms: u64 },
    /// Carry out the steps of `execute_owner_telegram_message`, the last of
    /// which is the agent's run.
    RunAgent,
    /// Carry out the steps of `finish_owner_turn`, the last of which sends the
    /// reply.
    Reply,
    /// There is nothing left to do.
    Stop,
}

/// What happened, with texts as characters.
pub enum EventModel {
    Message(Seq<char>),
    Placed,
    Unreadable,
    Sent(bool),
    AgentDone,
}

/// What to do next, with texts as characters.
pub enum ActionModel {
    OfferResearch(Seq<char>),
    FindArc { force_new: bool, text: Seq<char> },
    TellUnreadable,
    Acknowledge { after_ms: int },
    RunAgent,
    Reply,
    Stop,
}

impl View for TurnEvent {
    type V = EventModel;

    open spec fn view(&self) -> EventModel {
        match self {
            TurnEvent::Message(text) => EventModel::Message(text@),
            TurnEvent::Placed => EventModel::Placed,
            TurnEvent::Unreadable => EventModel::Unreadable,
            TurnEvent::Sent(ok) => EventModel::Sent(*ok),
            TurnEvent::AgentDone => EventModel::AgentDone,
        }
    }
}

impl View for TurnAction {
    type V = ActionModel;

    open spec fn view(&self) -> ActionModel {
        match self {
            TurnAction::OfferResearch(topic) => ActionModel::OfferResearch(topic@),
            TurnAction::FindArc { force_new, text } => ActionModel::FindArc {
                force_new: *force_new,
                text: text@,
            },
            TurnAction::TellUnreadable => ActionModel::TellUnreadable,
            TurnAction::Acknowledge { after_ms } => ActionModel::Acknowledge {
                after_ms: *after_ms as int,
            },
            TurnAction::RunAgent => ActionModel::RunAgent,
            TurnAction::Reply => ActionModel::Reply,
            TurnAction::Stop => ActionModel::Stop,
        }
    }
}

/// A message asks for a fresh arc and says nothing else.
pub open spec fn is_bare(text: Seq<char>) -> bool {
    newarc_of(text).0 && newarc_of(text).1.len() == 0
}

/// What follows a message: research is offered before anything else is looked
/// at; for any other message an arc is sought.
pub open spec fn on_message(text: Seq<char>) -> (TurnState, ActionModel) {
    match research_topic_of(text) {
        Some(topic) => (TurnState::Ended, ActionModel::OfferResearch(topic)),
        None => (
            TurnState::Routing { bare: is_bare(text) },
            ActionModel::FindArc { force_new: newarc_of(text).0, text: newarc_of(text).1 },
        ),
    }
}

/// What follows an event. One that does not belong to the state ends the turn.
pub open spec fn turn_next(state: TurnState, event: EventModel) -> (TurnState, ActionModel) {
    match (state, event) {
        (TurnState::Fresh, EventModel::Message(text)) => on_message(text),
        (TurnState::Routing { bare: true }, EventModel::Placed) => (
            TurnState::Acknowledging { attempt: 0 },
            ActionModel::Acknowledge { after_ms: 0 },
        ),
        (TurnState::Routing { bare: false }, EventModel::Placed) => (
            TurnState::Running,
            ActionModel::RunAgent,
        ),
        (TurnState::Routing { .. }, EventModel::Unreadable) => (
            TurnState::Ended,
            ActionModel::TellUnreadable,
        ),
        (TurnState::Acknowledging { attempt: 0 }, EventModel::Sent(false)) => (
            TurnState::Acknowledging { attempt: 1 },
            ActionModel::Acknowledge { after_ms: 500 },
        ),
        (TurnState::Running, EventModel::AgentDone) => (TurnState::Ended, ActionModel::Reply),
        _ => (TurnState::Ended, ActionModel::Stop),
    }
}

/// What follows an event.
pub fn next_turn_step(state: TurnState, event: &TurnEvent) -> (r: (TurnState, TurnAction))
    ensures
        (r.0, r.1@) == turn_next(state, event@),
{
    match state {
        TurnState::Fresh => {
            if let TurnEvent::Message(text) = event {
                return match owner_command(text.as_str()) {
                    OwnerCommand::DeepResearch(topic) => (
                        TurnState::Ended,
                        TurnAction::OfferResearch(topic),
                    ),
                    OwnerCommand::Message { force_new_arc, text: left } => {
                        let bare = is_bare_newarc(force_new_arc, left.as_str());
                        (
                            TurnState::Routing { bare },
                            TurnAction::FindArc { force_new: force_new_arc, text: left },
                        )
                    },
                };
            }
        },
        TurnState::Routing { bare } => {
            if let TurnEvent::Placed = event {
                return if bare {
                    (
                        TurnState::Acknowledging { attempt: 0 },
                        TurnAction::Acknowledge { after_ms: 0 },
                    )
                } else {
                    (TurnState::Running, TurnAction::RunAgent)
                };
            }
            if let TurnEvent::Unreadable = event {
                return (TurnState::Ended, TurnAction::TellUnreadable);
            }
        },
        TurnState::Acknowledging { attempt } => {
            if let TurnEvent::Sent(ok) = event {
                if let AckStep::Retry(after_ms) = after_ack(attempt, *ok) {
                    return (
                        TurnState::Acknowledging { attempt: 1 },
                        TurnAction::Acknowledge { after_ms },
                    );
                }
            }
        },
        TurnState::Running => {
            if let TurnEvent::AgentDone = event {
                return (TurnState::Ended, TurnAction::Reply);
            }
        },
        TurnState::Ended => {},
    }
    (TurnState::Ended, TurnAction::Stop)
}

// ---------------------------------------------------------------------------
// Laws
// ---------------------------------------------------------------------------

/// The actions that a run of events gives, from a state on.
pub open spec fn turn_actions(state: TurnState, events: Seq<EventModel>) -> Seq<ActionModel>
    decreases events.len(),
{
    if events.len() == 0 {
        Seq::empty()
    } else {
        let (next, action) = turn_next(state, events[0]);
        seq![action] + turn_actions(next, events.skip(1))
    }
}

/// How often the agent is run.
pub open spec fn runs_in(actions: Seq<ActionModel>) -> nat
    decreases actions.len(),
{
    if actions.len() == 0 {
        0
    } else {
        (if actions[0] is RunAgent {
            1nat
        } else {
            0
        }) + runs_in(actions.skip(1))
    }
}

/// How often the agent may still be run.
spec fn runs_left(state: TurnState) -> nat {
    match state {
        TurnState::Fresh => 1,
        TurnState::Routing { bare } => if bare {
            0
        } else {
            1
        },
        _ => 0,
    }
}

proof fn lemma_runs(state: TurnState, events: Seq<EventModel>)
    ensures
        runs_in(turn_actions(state, events)) <= runs_left(state),
    decreases events.len(),
{
    if events.len() > 0 {
        let (next, action) = turn_next(state, events[0]);
        let rest = turn_actions(next, events.skip(1));
        lemma_runs(next, events.skip(1));
        assert(turn_actions(state, events).skip(1) =~= rest);
        assert(turn_actions(state, events)[0] == action);
    }
}

/// Whatever happens, a turn runs the agent at most once.
pub proof fn the_agent_runs_at_most_once(events: Seq<EventModel>)
    ensures
        runs_in(turn_actions(TurnState::Fresh, events)) <= 1,
{
    lemma_runs(TurnState::Fresh, events);
}

/// A research command never reaches the agent, whatever happens after it: the
/// first thing that is done is the offer, and nothing follows it.
pub proof fn research_never_reaches_the_agent(text: Seq<char>, events: Seq<EventModel>)
    requires
        research_topic_of(text) is Some,
    ensures
        ({
            let actions = turn_actions(TurnState::Fresh, seq![EventModel::Message(text)] + events);
            &&& actions.len() == events.len() + 1
            &&& actions[0] == ActionModel::OfferResearch(research_topic_of(text)->0)
            &&& forall|i: int| 1 <= i < actions.len() ==> actions[i] is Stop
            &&& runs_in(actions) == 0
        }),
{
    let all = seq![EventModel::Message(text)] + events;
    let actions = turn_actions(TurnState::Fresh, all);
    assert(all.skip(1) =~= events);
    lemma_ended(events);
    lemma_runs(TurnState::Ended, events);
    assert(actions.skip(1) =~= turn_actions(TurnState::Ended, events));
}

proof fn lemma_ended(events: Seq<EventModel>)
    ensures
        turn_actions(TurnState::Ended, events).len() == events.len(),
        forall|i: int|
            0 <= i < events.len() ==> turn_actions(TurnState::Ended, events)[i] is Stop,
    decreases events.len(),
{
    if events.len() > 0 {
        lemma_ended(events.skip(1));
    }
}

/// A command that asks for a fresh arc and says nothing else never reaches the
/// agent, whatever happens after it.
pub proof fn bare_newarc_never_reaches_the_agent(text: Seq<char>, events: Seq<EventModel>)
    requires
        is_bare(text),
    ensures
        runs_in(turn_actions(TurnState::Fresh, seq![EventModel::Message(text)] + events)) == 0,
{
    let all = seq![EventModel::Message(text)] + events;
    let (next, action) = turn_next(TurnState::Fresh, all[0]);
    assert(all.skip(1) =~= events);
    lemma_runs(next, events);
    assert(turn_actions(TurnState::Fresh, all).skip(1) =~= turn_actions(next, events));
}

/// Any other message reaches the agent as soon as its arc is settled, and its
/// reply goes out when the agent is done.
pub proof fn messages_reach_the_agent(text: Seq<char>)
    requires
        research_topic_of(text) is None,
        !is_bare(text),
    ensures
        turn_actions(
            TurnState::Fresh,
            seq![EventModel::Message(text), EventModel::Placed, EventModel::AgentDone],
        ) == seq![
            ActionModel::FindArc { force_new: newarc_of(text).0, text: newarc_of(text).1 },
            ActionModel::RunAgent,
            ActionModel::Reply,
        ],
{
    let events = seq![EventModel::Message(text), EventModel::Placed, EventModel::AgentDone];
    reveal_with_fuel(turn_actions, 4);
    assert(events.skip(1)[0] == EventModel::Placed);
    assert(events.skip(1).skip(1)[0] == EventModel::AgentDone);
}

/// What a message leads to: a research command is offered and ends the turn;
/// anything else is placed in an arc, a new one exactly where the command for
/// it leads the message.
pub proof fn messages_are_placed(text: Seq<char>)
    ensures
        is_bare(text) <==> newarc_of(text).0 && newarc_of(text).1.len() == 0,
        research_topic_of(text) matches Some(topic) ==> turn_next(
            TurnState::Fresh,
            EventModel::Message(text),
        ) == (TurnState::Ended, ActionModel::OfferResearch(topic)),
        research_topic_of(text) is None ==> turn_next(TurnState::Fresh, EventModel::Message(text))
            == (
            TurnState::Routing { bare: is_bare(text) },
            ActionModel::FindArc { force_new: newarc_of(text).0, text: newarc_of(text).1 },
        ),
{
}

/// How a turn goes on: a message that was placed runs the agent, a bare command
/// is acknowledged instead, twice at most, the second time after half a second,
/// and a finished run is replied to. Everything else ends the turn.
pub proof fn turns_go_on_step_by_step(bare: bool, attempt: u8, event: EventModel)
    ensures
        turn_next(TurnState::Routing { bare: false }, EventModel::Placed) == (
            TurnState::Running,
            ActionModel::RunAgent,
        ),
        turn_next(TurnState::Routing { bare: true }, EventModel::Placed) == (
            TurnState::Acknowledging { attempt: 0 },
            ActionModel::Acknowledge { after_ms: 0 },
        ),
        turn_next(TurnState::Routing { bare }, EventModel::Unreadable) == (
            TurnState::Ended,
            ActionModel::TellUnreadable,
        ),
        turn_next(TurnState::Acknowledging { attempt: 0 }, EventModel::Sent(false)) == (
            TurnState::Acknowledging { attempt: 1 },
            ActionModel::Acknowledge { after_ms: 500 },
        ),
        turn_next(TurnState::Acknowledging { attempt }, EventModel::Sent(true)) == (
            TurnState::Ended,
            ActionModel::Stop,
        ),
        attempt > 0 ==> turn_next(TurnState::Acknowledging { attempt }, event) == (
            TurnState::Ended,
            ActionModel::Stop,
        ),
        turn_next(TurnState::Running, EventModel::AgentDone) == (
            TurnState::Ended,
            ActionModel::Reply,
        ),
        !(event is AgentDone) ==> turn_next(TurnState::Running, event) == (
            TurnState::Ended,
            ActionModel::Stop,
        ),
        turn_next(TurnState::Ended, event) == (TurnState::Ended, ActionModel::Stop),
{
}

/// The actions of a turn are those of its events, one by one.
pub proof fn actions_follow_the_events(state: TurnState, event: EventModel, rest: Seq<EventModel>)
    ensures
        turn_actions(state, Seq::empty()).len() == 0,
        turn_actions(state, seq![event] + rest) == seq![turn_next(state, event).1] + turn_actions(
            turn_next(state, event).0,
            rest,
        ),
{
    assert((seq![event] + rest).skip(1) =~= rest);
    assert((seq![event] + rest)[0] == event);
}

} // verus!
