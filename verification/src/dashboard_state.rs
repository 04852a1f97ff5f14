//! The dashboard's state between refreshes, apart from its real-valued
//! market figures: the version last seen, the agent log, the four event
//! lists and the intent cards. Each refresh records the version, appends
//! the new log entries and events (keeping only the newest of each), and
//! adds and resolves intent cards as intent events arrive.

use vstd::prelude::*;
use crate::dashboard::{
    card_id, feed_of, keep_latest, latest, without_id, EventFeed, EventKind, IntentCard, IntentDeck, FEED_CAPACITY,
    LOG_CAPACITY,
};

verus! {

/// What an arriving event does to the intent cards.
pub enum CardEffect<C> {
    /// A generated intent: add a card showing this.
    Add(C),
    /// An approved or rejected intent: remove the cards of this intent.
    Resolve(String),
    /// Nothing.
    Keep,
}

/// An event arriving at the dashboard, with its kind and its effect on the
/// intent cards.
pub struct Arrival<E, C> {
    pub kind: EventKind,
    pub event: E,
    pub card: CardEffect<C>,
}

/// The cards as identifiers and bodies.
pub open spec fn deck_view<C>(cards: Seq<IntentCard<C>>) -> Seq<(Seq<char>, C)> {
    cards.map_values(|c: IntentCard<C>| (c.intent_id@, c.body))
}

/// The cards of `v` not carrying identifier `id`, in order.
pub open spec fn drop_card<C>(v: Seq<(Seq<char>, C)>, id: Seq<char>) -> Seq<(Seq<char>, C)>
    decreases v.len(),
{
    if v.len() == 0 {
        v
    } else {
        let rest = drop_card(v.drop_last(), id);
        if v.last().0 == id {
            rest
        } else {
            rest.push(v.last())
        }
    }
}

/// Whether an arrival adds a card: a generated intent that brings one.
pub open spec fn adds_card<E, C>(a: Arrival<E, C>) -> bool {
    a.kind == EventKind::IntentGenerated && a.card is Add
}

/// The cards and the next card number after one arrival: a generated intent
/// adds the card `INT-<next>`; an approved or rejected one removes the
/// cards of its intent; any other arrival leaves the cards.
pub open spec fn card_step<E, C>(v: Seq<(Seq<char>, C)>, next: nat, a: Arrival<E, C>) -> (Seq<(Seq<char>, C)>, nat) {
    match a.card {
        CardEffect::Add(body) => if a.kind == EventKind::IntentGenerated {
            (v.push((card_id(next), body)), next + 1)
        } else {
            (v, next)
        },
        CardEffect::Resolve(id) => if a.kind == EventKind::IntentApproved || a.kind == EventKind::IntentRejected {
            (drop_card(v, id@), next)
        } else {
            (v, next)
        },
        CardEffect::Keep => (v, next),
    }
}

/// The cards and the next card number after `arrivals`, in order.
pub open spec fn cards_after<E, C>(v: Seq<(Seq<char>, C)>, next: nat, arrivals: Seq<Arrival<E, C>>) -> (Seq<(Seq<char>, C)>, nat)
    decreases arrivals.len(),
{
    if arrivals.len() == 0 {
        (v, next)
    } else {
        let (w, n) = cards_after(v, next, arrivals.drop_last());
        card_step(w, n, arrivals.last())
    }
}

/// How many of `arrivals` add a card.
pub open spec fn added_cards<E, C>(arrivals: Seq<Arrival<E, C>>) -> nat
    decreases arrivals.len(),
{
    if arrivals.len() == 0 {
        0
    } else {
        added_cards(arrivals.drop_last()) + if adds_card(arrivals.last()) { 1nat } else { 0nat }
    }
}

/// The events of `arrivals` that go to list `f`, in order.
pub open spec fn feed_events<E, C>(arrivals: Seq<Arrival<E, C>>, f: EventFeed) -> Seq<E>
    decreases arrivals.len(),
{
    if arrivals.len() == 0 {
        Seq::empty()
    } else {
        let rest = feed_events(arrivals.drop_last(), f);
        if feed_of(arrivals.last().kind) == f {
            rest.push(arrivals.last().event)
        } else {
            rest
        }
    }
}

/// The dashboard's state apart from its market figures.
pub struct DashboardFeeds<L, E, C> {
    /// The context version of the last refresh.
    pub last_version: u64,
    /// The agent log, oldest first.
    pub log_entries: Vec<L>,
    pub orders: Vec<E>,
    pub research: Vec<E>,
    pub risk: Vec<E>,
    pub intents: Vec<E>,
    /// The intent cards awaiting a decision.
    pub deck: IntentDeck<C>,
}

/// The list of `d` that `f` names.
pub open spec fn list_of<L, E, C>(d: DashboardFeeds<L, E, C>, f: EventFeed) -> Seq<E> {
    match f {
        EventFeed::Orders => d.orders@,
        EventFeed::Research => d.research@,
        EventFeed::Risk => d.risk@,
        EventFeed::Intents => d.intents@,
    }
}

/// Removing an intent's cards, read on identifiers and bodies.
proof fn lemma_deck_view_without<C>(cards: Seq<IntentCard<C>>, id: Seq<char>)
    ensures
        deck_view(without_id(cards, id)) == drop_card(deck_view(cards), id),
    decreases cards.len(),
{
    if cards.len() > 0 {
        lemma_deck_view_without(cards.drop_last(), id);
        assert(deck_view(cards).drop_last() =~= deck_view(cards.drop_last()));
        let rest = without_id(cards.drop_last(), id);
        if cards.last().intent_id@ != id {
            assert(deck_view(rest.push(cards.last())) =~= deck_view(rest).push(deck_view(cards).last()));
        }
    }
}

impl<L, E, C> DashboardFeeds<L, E, C> {
    /// Nothing seen yet.
    pub fn new() -> (r: Self)
        ensures
            r.last_version == 0,
            r.log_entries@.len() == 0,
            r.orders@.len() == 0,
            r.research@.len() == 0,
            r.risk@.len() == 0,
            r.intents@.len() == 0,
            r.deck.wf(),
            r.deck.spec_cards().len() == 0,
            r.deck.spec_next() == 0,
    {
        DashboardFeeds {
            last_version: 0,
            log_entries: Vec::new(),
            orders: Vec::new(),
            research: Vec::new(),
            risk: Vec::new(),
            intents: Vec::new(),
            deck: IntentDeck::new(),
        }
    }

    /// Files one arrival: its event goes to its list, and its card effect is
    /// applied.
    fn file(&mut self, a: Arrival<E, C>)
        requires
            old(self).deck.wf(),
            adds_card(a) ==> old(self).deck.spec_next() < u64::MAX,
        ensures
            final(self).deck.wf(),
            final(self).last_version == old(self).last_version,
            final(self).log_entries@ == old(self).log_entries@,
            forall|f: EventFeed| #[trigger] list_of(*final(self), f) == if feed_of(a.kind) == f {
                list_of(*old(self), f).push(a.event)
            } else {
                list_of(*old(self), f)
            },
            (deck_view(final(self).deck.spec_cards()), final(self).deck.spec_next()) == card_step(
                deck_view(old(self).deck.spec_cards()),
                old(self).deck.spec_next(),
                a,
            ),
    {
        let Arrival { kind, event, card } = a;
        let ghost old_cards = self.deck.spec_cards();
        match card {
            CardEffect::Add(body) => {
                if kind == EventKind::IntentGenerated {
                    let _id = self.deck.add(body);
                    assert(deck_view(self.deck.spec_cards()) =~= deck_view(old_cards).push(
                        (card_id(old(self).deck.spec_next()), body),
                    ));
                }
            },
            CardEffect::Resolve(id) => {
                if kind == EventKind::IntentApproved || kind == EventKind::IntentRejected {
                    self.deck.resolve(id.as_str());
                    proof {
                        lemma_deck_view_without(old_cards, id@);
                    }
                }
            },
            CardEffect::Keep => {},
        }
        match kind.feed() {
            EventFeed::Orders => self.orders.push(event),
            EventFeed::Research => self.research.push(event),
            EventFeed::Risk => self.risk.push(event),
            EventFeed::Intents => self.intents.push(event),
        }
    }

    /// A refresh: records `version`, appends the new log entries and the
    /// arriving events (in order), adds and resolves intent cards, and keeps
    /// the newest `LOG_CAPACITY` log entries and `FEED_CAPACITY` events of
    /// each list.
    pub fn refresh(&mut self, version: u64, logs: Vec<L>, arrivals: Vec<Arrival<E, C>>)
        requires
            old(self).deck.wf(),
            old(self).deck.spec_next() + added_cards(arrivals@) <= u64::MAX,
        ensures
            final(self).last_version == version,
            final(self).log_entries@ == latest(old(self).log_entries@ + logs@, LOG_CAPACITY as nat),
            forall|f: EventFeed| #[trigger] list_of(*final(self), f) == latest(
                list_of(*old(self), f) + feed_events(arrivals@, f),
                FEED_CAPACITY as nat,
            ),
            final(self).deck.wf(),
            (deck_view(final(self).deck.spec_cards()), final(self).deck.spec_next() as nat) == cards_after(
                deck_view(old(self).deck.spec_cards()),
                old(self).deck.spec_next(),
                arrivals@,
            ),
    {
        self.last_version = version;
        let mut logs = logs;
        self.log_entries.append(&mut logs);
        let ghost start = *self;
        let ghost all = arrivals@;
        let mut rest = arrivals;
        let ghost mut i: int = 0;
        while rest.len() > 0
            invariant
                0 <= i <= all.len(),
                rest@ == all.skip(i),
                self.deck.wf(),
                self.last_version == version,
                self.log_entries@ == start.log_entries@,
                start.deck.spec_next() + added_cards(all) <= u64::MAX,
                self.deck.spec_next() == start.deck.spec_next() + added_cards(all.take(i)),
                forall|f: EventFeed| #[trigger] list_of(*self, f) == list_of(start, f) + feed_events(all.take(i), f),
                (deck_view(self.deck.spec_cards()), self.deck.spec_next() as nat) == cards_after(
                    deck_view(start.deck.spec_cards()),
                    start.deck.spec_next(),
                    all.take(i),
                ),
            decreases rest.len(),
        {
            let a = rest.remove(0);
            proof {
                assert(a == all[i]);
                assert(all.take(i + 1).drop_last() =~= all.take(i));
                assert(all.take(i + 1).last() == all[i]);
                lemma_added_cards_prefix(all, i + 1);
                assert(rest@ =~= all.skip(i + 1));
            }
            let ghost before = *self;
            self.file(a);
            proof {
                assert forall|f: EventFeed| #[trigger] list_of(*self, f) == list_of(start, f) + feed_events(all.take(i + 1), f) by {
                    assert(list_of(before, f) == list_of(start, f) + feed_events(all.take(i), f));
                    if feed_of(all[i].kind) == f {
                        assert(list_of(start, f) + feed_events(all.take(i), f).push(all[i].event) =~= (list_of(start, f)
                            + feed_events(all.take(i), f)).push(all[i].event));
                    }
                }
                i = i + 1;
            }
        }
        proof {
            assert(all.take(i) =~= all);
        }
        let ghost mid = *self;
        keep_latest(&mut self.log_entries, LOG_CAPACITY);
        keep_latest(&mut self.orders, FEED_CAPACITY);
        keep_latest(&mut self.research, FEED_CAPACITY);
        keep_latest(&mut self.risk, FEED_CAPACITY);
        keep_latest(&mut self.intents, FEED_CAPACITY);
        proof {
            assert forall|f: EventFeed| #[trigger] list_of(*self, f) == latest(
                list_of(start, f) + feed_events(all, f),
                FEED_CAPACITY as nat,
            ) by {
                assert(list_of(mid, f) == list_of(start, f) + feed_events(all, f));
                match f {
                    EventFeed::Orders => {},
                    EventFeed::Research => {},
                    EventFeed::Risk => {},
                    EventFeed::Intents => {},
                }
            }
        }
    }
}

/// The cards added by a prefix of the arrivals never outnumber those of the
/// whole.
proof fn lemma_added_cards_prefix<E, C>(all: Seq<Arrival<E, C>>, k: int)
    requires
        0 <= k <= all.len(),
    ensures
        added_cards(all.take(k)) <= added_cards(all),
    decreases all.len() - k,
{
    if k < all.len() {
        lemma_added_cards_prefix(all, k + 1);
        assert(all.take(k + 1).drop_last() =~= all.take(k));
    } else {
        assert(all.take(k) =~= all);
    }
}

/// Over a refresh, each generated intent gets the next card number, so the
/// numbers handed out rise by one per added card and never repeat: after
/// `arrivals`, the next number is the old one plus the cards added.
pub proof fn lemma_card_numbers_rise<E, C>(v: Seq<(Seq<char>, C)>, next: nat, arrivals: Seq<Arrival<E, C>>)
    ensures
        cards_after(v, next, arrivals).1 == next + added_cards(arrivals),
    decreases arrivals.len(),
{
    if arrivals.len() > 0 {
        lemma_card_numbers_rise(v, next, arrivals.drop_last());
    }
}

/// After a refresh the log holds at most `LOG_CAPACITY` entries and each
/// event list at most `FEED_CAPACITY`, and what they hold is the newest of
/// what was there and what arrived, in order.
pub proof fn lemma_refresh_bounds<T>(old_list: Seq<T>, new_items: Seq<T>, cap: nat)
    ensures
        latest(old_list + new_items, cap).len() <= cap,
        latest(old_list + new_items, cap).len() == if old_list.len() + new_items.len() < cap {
            old_list.len() + new_items.len()
        } else {
            cap
        },
        latest(old_list + new_items, cap) =~= (old_list + new_items).skip(
            (old_list.len() + new_items.len()) - latest(old_list + new_items, cap).len(),
        ),
{
}

} // verus!
