//! Turning a click on a menu item into the event sent to the front end.

use vstd::prelude::*;
use crate::action::{MenuAction, action_for_id, is_recognized, lemma_id_round_trip, lemma_lookup_exact};

verus! {

/// The name of the channel on which menu actions are broadcast.
pub open spec fn menu_action_channel() -> Seq<char> {
    "menu-action"@
}

/// An event to broadcast to the front end after a click.
#[derive(Clone, Copy, Debug, PartialEq, Eq, Structural)]
pub struct MenuEvent {
    pub action: MenuAction,
}

impl MenuEvent {
    /// The name of the event: always the menu action channel.
    pub open spec fn spec_name(self) -> Seq<char> {
        menu_action_channel()
    }

    /// The payload of the event: the identifier of the clicked action.
    pub open spec fn spec_payload(self) -> Seq<char> {
        self.action.spec_id()
    }

    /// The name under which the event is emitted.
    pub fn name(&self) -> (r: &'static str)
        ensures
            r@ == self.spec_name(),
    {
        "menu-action"
    }

    /// The payload that the event carries.
    pub fn payload(&self) -> (r: &'static str)
        ensures
            r@ == self.spec_payload(),
    {
        self.action.id()
    }
}

/// The event that a click on the item with identifier `id` gives, if any.
pub open spec fn event_for(id: Seq<char>) -> Option<MenuEvent> {
    match action_for_id(id) {
        Some(a) => Some(MenuEvent { action: a }),
        None => None,
    }
}

/// Decides what a click on the item with identifier `id` emits: one event on
/// the menu action channel carrying `id` when it is recognized, nothing
/// otherwise.
pub fn dispatch(id: &str) -> (r: Option<MenuEvent>)
    ensures
        r == event_for(id@),
        r is Some <==> is_recognized(id@),
        r matches Some(e) ==> e.spec_name() == menu_action_channel() && e.spec_payload() == id@,
{
    proof {
        lemma_lookup_exact(id@);
    }
    match MenuAction::from_id(id) {
        Some(a) => Some(MenuEvent { action: a }),
        None => None,
    }
}

/// The events emitted, in order, by a run of clicks on the given identifiers.
pub open spec fn emitted(clicks: Seq<Seq<char>>) -> Seq<MenuEvent>
    decreases clicks.len(),
{
    if clicks.len() == 0 {
        Seq::empty()
    } else {
        let rest = emitted(clicks.drop_last());
        match event_for(clicks.last()) {
            Some(e) => rest.push(e),
            None => rest,
        }
    }
}

/// Clicking the item of any action emits exactly that action's event, whose
/// payload is the action's identifier.
pub proof fn lemma_every_action_dispatches(a: MenuAction)
    ensures
        event_for(a.spec_id()) == Some((MenuEvent { action: a })),
        (MenuEvent { action: a }).spec_payload() == a.spec_id(),
{
    lemma_id_round_trip(a);
}

/// An unrecognized identifier emits nothing.
pub proof fn lemma_unknown_emits_nothing(id: Seq<char>)
    requires
        !is_recognized(id),
    ensures
        emitted(seq![id]) == Seq::<MenuEvent>::empty(),
{
    lemma_lookup_exact(id);
    assert(seq![id].drop_last() =~= Seq::<Seq<char>>::empty());
    assert(seq![id].last() == id);
    assert(emitted(Seq::<Seq<char>>::empty()) == Seq::<MenuEvent>::empty());
}

/// Dispatch keeps no state between clicks: the events of two runs of clicks,
/// one after the other, are the events of the first run followed by those of
/// the second.
pub proof fn lemma_emitted_concat(a: Seq<Seq<char>>, b: Seq<Seq<char>>)
    ensures
        emitted(a + b) == emitted(a) + emitted(b),
    decreases b.len(),
{
    if b.len() == 0 {
        assert(a + b =~= a);
        assert(emitted(b) =~= Seq::<MenuEvent>::empty());
        assert(emitted(a) + emitted(b) =~= emitted(a));
    } else {
        assert((a + b).drop_last() =~= a + b.drop_last());
        assert((a + b).last() == b.last());
        lemma_emitted_concat(a, b.drop_last());
        match event_for(b.last()) {
            Some(e) => {
                assert(emitted(a) + emitted(b.drop_last()).push(e) =~= (emitted(a) + emitted(
                    b.drop_last(),
                )).push(e));
            },
            None => {},
        }
    }
}

/// An unrecognized click leaves no trace: inserting it anywhere in a run of
/// clicks changes none of the events emitted.
pub proof fn lemma_unknown_click_leaves_no_trace(
    before: Seq<Seq<char>>,
    id: Seq<char>,
    after: Seq<Seq<char>>,
)
    requires
        !is_recognized(id),
    ensures
        emitted(before + seq![id] + after) == emitted(before + after),
{
    lemma_unknown_emits_nothing(id);
    lemma_emitted_concat(before, seq![id]);
    lemma_emitted_concat(before + seq![id], after);
    lemma_emitted_concat(before, after);
    assert(emitted(before) + Seq::<MenuEvent>::empty() =~= emitted(before));
}

/// The same identifier, clicked `n` times in a row.
pub open spec fn repeated(id: Seq<char>, n: nat) -> Seq<Seq<char>> {
    Seq::new(n, |i: int| id)
}

/// Clicking a recognized item `n` times in a row emits `n` events, each on
/// the menu action channel and carrying that item's identifier.
pub proof fn lemma_repeated_clicks(id: Seq<char>, n: nat)
    requires
        is_recognized(id),
    ensures
        emitted(repeated(id, n)).len() == n,
        forall|i: int|
            0 <= i < n ==> (#[trigger] emitted(repeated(id, n))[i]).spec_payload() == id
                && emitted(repeated(id, n))[i].spec_name() == menu_action_channel(),
    decreases n,
{
    lemma_lookup_exact(id);
    if n > 0 {
        assert(repeated(id, n).drop_last() =~= repeated(id, (n - 1) as nat));
        lemma_repeated_clicks(id, (n - 1) as nat);
    }
}

} // verus!
