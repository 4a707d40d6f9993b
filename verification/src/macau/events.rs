//! Telling those who follow a game what happens in it, each as far as it is
//! theirs to know.

use crate::macau::{GameState, MacauEvent};
use vstd::prelude::*;

verus! {

/// One who follows a game for one of its players.
pub trait EventHandler {
    /// Receives an event of the game. Whoever calls this owes that the event
    /// is meant for the player `recipient`: no handler is ever shown the hand
    /// of another player.
    fn handle(&self, recipient: u32, game: &GameState, event: &MacauEvent)
        requires
            game.wf(),
            event.meant_for(game, recipient),
    ;
}

/// Those who follow a game, each with the id of the player that they follow
/// it for, in the order in which they subscribed.
pub struct EventManager<H: EventHandler> {
    subscribers: Vec<(u32, H)>,
}

impl<H: EventHandler> View for EventManager<H> {
    type V = Seq<(u32, H)>;

    /// The handlers, each with the id of its player, in the order in which
    /// they subscribed.
    closed spec fn view(&self) -> Seq<(u32, H)> {
        self.subscribers@
    }
}

impl<H: EventHandler> EventManager<H> {
    /// The ids that the handlers follow the game for, in the order in which
    /// they subscribed. One id may stand there several times.
    pub open spec fn ids(&self) -> Seq<u32> {
        Seq::new(self@.len(), |i: int| self@[i].0)
    }

    /// A manager that nobody has subscribed to yet.
    pub fn new() -> (manager: EventManager<H>)
        ensures
            manager@ == Seq::<(u32, H)>::empty(),
            manager.ids() == Seq::<u32>::empty(),
    {
        EventManager { subscribers: Vec::new() }
    }

    /// Adds a handler for a player, behind those already there. A player may
    /// have several handlers; each is told of every event.
    pub fn subscribe(&mut self, player_id: u32, subscriber: H)
        ensures
            final(self)@ == old(self)@.push((player_id, subscriber)),
            final(self).ids() == old(self).ids().push(player_id),
    {
        self.subscribers.push((player_id, subscriber));
        assert(self.ids() =~= old(self).ids().push(player_id));
    }

    /// Tells every handler of the same event, in the order in which they
    /// subscribed. The event must be one that every one of them may know.
    pub fn notify_common(&self, game: &GameState, event: &MacauEvent)
        requires
            game.wf(),
            forall|i: int| 0 <= i < self.ids().len() ==> event.meant_for(game, #[trigger] self.ids()[i]),
    {
        let mut i: usize = 0;
        while i < self.subscribers.len()
            invariant
                i <= self.subscribers.len(),
                game.wf(),
                forall|i: int|
                    0 <= i < self.ids().len() ==> event.meant_for(game, #[trigger] self.ids()[i]),
            decreases self.subscribers.len() - i,
        {
            assert(self.ids()[i as int] == self.subscribers@[i as int].0);
            self.subscribers[i].1.handle(self.subscribers[i].0, game, event);
            i += 1;
        }
    }

    /// Tells every handler of an event made for it, in the order in which
    /// they subscribed: for each handler `func` makes the event from the game
    /// and the id of the player that the handler follows the game for, and the
    /// handler is told of that event. `func` must make, for every id, an
    /// event that is meant for the player with that id.
    pub fn notify_customized<F>(&self, game: &GameState, func: F) where
        F: Fn(&GameState, u32) -> MacauEvent,

        requires
            game.wf(),
            forall|i: int|
                0 <= i < self.ids().len() ==> call_requires(func, (game, #[trigger] self.ids()[i])),
            forall|id: u32, event: MacauEvent|
                call_ensures(func, (game, id), event) ==> event.meant_for(game, id),
    {
        let mut i: usize = 0;
        while i < self.subscribers.len()
            invariant
                i <= self.subscribers.len(),
                game.wf(),
                forall|i: int|
                    0 <= i < self.ids().len() ==> call_requires(
                        func,
                        (game, #[trigger] self.ids()[i]),
                    ),
                forall|id: u32, event: MacauEvent|
                    call_ensures(func, (game, id), event) ==> event.meant_for(game, id),
            decreases self.subscribers.len() - i,
        {
            let id: u32 = self.subscribers[i].0;
            assert(self.ids()[i as int] == id);
            let event = func(game, id);
            self.subscribers[i].1.handle(id, game, &event);
            i += 1;
        }
    }
}

} // verus!
