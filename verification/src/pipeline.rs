//! Control logic of the streaming pipelines: the state machine that
//! decides, from the current state and one event, the next state and the
//! actions the surrounding loop must perform. The loop itself — awaiting
//! messages, sleeping, talking to the exchange — lives outside the
//! library and only follows these decisions.

use vstd::prelude::*;

use crate::classify::{BookOutcome, FeedOutcome};
use crate::decimal::MAX_UNITS;
use crate::orderbook::{sorted_asc, sorted_desc, Orderbook};
use crate::table::{batch_lookup, spec_updated_price, NameToPriceMap};

verus! {

/// Feed ticks a live subscription serves before the pipeline proactively
/// renews it, ahead of the platform's own expiry.
pub const RESUBSCRIBE_TICKS: u64 = 100_000;

/// Fixed pause between successive publishes, in milliseconds.
pub const TICK_INTERVAL_MS: u64 = 800;

/// Fixed backoff before a failed pipeline restarts, in milliseconds.
pub const RESTART_BACKOFF_MS: u64 = 5_000;

/// The next value of a publish or resubscription counter: one more,
/// held at the `u64` ceiling rather than wrapping.
pub open spec fn bump(c: u64) -> u64 {
    if c == u64::MAX {
        u64::MAX
    } else {
        (c + 1) as u64
    }
}

/// Computes `bump` at run time.
fn bump_counter(c: u64) -> (r: u64)
    ensures
        r == bump(c),
{
    if c == u64::MAX {
        u64::MAX
    } else {
        c + 1
    }
}

/// Control state of a streaming pipeline.
#[derive(Clone, Copy, Debug, PartialEq, Eq)]
pub enum PipelineState {
    /// Fetching metadata and the first price batch.
    Seeding,
    /// Merging feed batches and publishing, counting the ticks since the
    /// last (re)subscription.
    Streaming { ticks: u64 },
    /// Waiting out the restart backoff after a failure.
    Backoff,
}

/// What the surrounding loop must do next, in the order given.
#[derive(Clone, Copy, Debug, PartialEq, Eq)]
pub enum PipelineAction {
    /// Publish the current table (or book) on the distribution channel.
    Publish,
    /// Sleep the fixed tick interval.
    SleepTick,
    /// Unsubscribe from the live feed.
    Unsubscribe,
    /// Subscribe to the live feed afresh.
    Resubscribe,
    /// Sleep the restart backoff.
    SleepBackoff,
    /// Fetch metadata and a first batch, then report the outcome.
    Seed,
}

/// What the price-ingestion loop learns on one iteration.
pub enum PipelineEvent {
    /// Seeding produced this initial table.
    SeedOk(NameToPriceMap),
    /// Seeding failed: a fetch error or a catalog inconsistency.
    SeedFailed,
    /// The classifier's verdict on the next feed message.
    Feed(FeedOutcome),
    /// Publishing failed (the channel has no receivers left).
    PublishFailed,
    /// The restart backoff has elapsed.
    BackoffElapsed,
}

/// The price-ingestion pipeline: its control state, the live table it
/// owns, and how many publishes and resubscriptions it has issued.
pub struct PricePipeline {
    pub state: PipelineState,
    pub table: NameToPriceMap,
    pub publishes: u64,
    pub resubscriptions: u64,
}

impl PricePipeline {
    /// The pipeline invariant: the table is well formed and the tick
    /// count never reaches the resubscription bound between steps.
    pub open spec fn wf(&self) -> bool {
        &&& self.table.wf()
        &&& (self.state matches PipelineState::Streaming { ticks } ==> ticks
            < RESUBSCRIBE_TICKS)
    }

    /// A fresh pipeline about to seed.
    pub fn new() -> (r: PricePipeline)
        ensures
            r.wf(),
            r.state is Seeding,
            r.table.spec_len() == 0,
            r.publishes == 0,
            r.resubscriptions == 0,
    {
        PricePipeline {
            state: PipelineState::Seeding,
            table: NameToPriceMap::new(),
            publishes: 0,
            resubscriptions: 0,
        }
    }

    /// One decision of the ingestion pipeline.
    ///
    /// While seeding, a successful seed enters streaming with a fresh
    /// tick count and the seeded table; a failed seed backs off. While
    /// streaming, a price batch is merged (instruments missing from the
    /// batch keep their prior price) and every batch, no-data and
    /// unrecognized message publishes exactly once and costs one tick;
    /// when the tick counter hits its bound the pipeline renews its
    /// subscription — exactly one unsubscribe and one resubscribe, with
    /// the publish still issued, none skipped and none duplicated. A
    /// protocol error or a failed publish abandons the subscription and
    /// backs off, keeping the table; when the backoff elapses the
    /// pipeline seeds afresh, still keeping the table until a new seed
    /// replaces it. Events that cannot occur in a state change nothing.
    pub fn step(&mut self, event: PipelineEvent) -> (actions: Vec<PipelineAction>)
        requires
            old(self).wf(),
            event matches PipelineEvent::SeedOk(t) ==> t.wf(),
            event matches PipelineEvent::Feed(f) ==> (f matches FeedOutcome::PriceBatch(b)
                ==> forall|i: int| 0 <= i < b@.len() ==> (#[trigger] b@[i]).1 <= MAX_UNITS),
        ensures
            final(self).wf(),
            match old(self).state {
                PipelineState::Seeding => match event {
                    PipelineEvent::SeedOk(t) => {
                        &&& final(self).state == (PipelineState::Streaming { ticks: 0u64 })
                        &&& final(self).table == t
                        &&& final(self).publishes == old(self).publishes
                        &&& final(self).resubscriptions == old(self).resubscriptions
                        &&& actions@ =~= Seq::<PipelineAction>::empty()
                    },
                    PipelineEvent::SeedFailed => {
                        &&& final(self).state is Backoff
                        &&& final(self).table == old(self).table
                        &&& final(self).publishes == old(self).publishes
                        &&& final(self).resubscriptions == old(self).resubscriptions
                        &&& actions@ =~= seq![PipelineAction::SleepBackoff]
                    },
                    _ => self_unchanged(*old(self), *final(self)) && actions@ =~= Seq::<
                        PipelineAction,
                    >::empty(),
                },
                PipelineState::Streaming { ticks } => match event {
                    PipelineEvent::Feed(f) => match f {
                        FeedOutcome::PriceBatch(b) => {
                            &&& table_merged(old(self).table, b@, final(self).table)
                            &&& publish_tick(*old(self), *final(self), ticks, actions@)
                        },
                        FeedOutcome::NoData => {
                            &&& final(self).table.entries@ == old(self).table.entries@
                            &&& publish_tick(*old(self), *final(self), ticks, actions@)
                        },
                        FeedOutcome::Unrecognized => {
                            &&& final(self).table.entries@ == old(self).table.entries@
                            &&& publish_tick(*old(self), *final(self), ticks, actions@)
                        },
                        FeedOutcome::ProtocolError => failed_step(
                            *old(self),
                            *final(self),
                            actions@,
                        ),
                    },
                    PipelineEvent::PublishFailed => failed_step(*old(self), *final(self), actions@),
                    _ => self_unchanged(*old(self), *final(self)) && actions@ =~= Seq::<
                        PipelineAction,
                    >::empty(),
                },
                PipelineState::Backoff => match event {
                    PipelineEvent::BackoffElapsed => {
                        &&& final(self).state is Seeding
                        &&& final(self).table == old(self).table
                        &&& final(self).publishes == old(self).publishes
                        &&& final(self).resubscriptions == old(self).resubscriptions
                        &&& actions@ =~= seq![PipelineAction::Seed]
                    },
                    _ => self_unchanged(*old(self), *final(self)) && actions@ =~= Seq::<
                        PipelineAction,
                    >::empty(),
                },
            },
    {
        match self.state {
            PipelineState::Seeding => match event {
                PipelineEvent::SeedOk(t) => {
                    self.table = t;
                    self.state = PipelineState::Streaming { ticks: 0 };
                    Vec::new()
                },
                PipelineEvent::SeedFailed => {
                    self.state = PipelineState::Backoff;
                    let mut a: Vec<PipelineAction> = Vec::new();
                    a.push(PipelineAction::SleepBackoff);
                    a
                },
                _ => Vec::new(),
            },
            PipelineState::Streaming { ticks } => match event {
                PipelineEvent::Feed(f) => match f {
                    FeedOutcome::PriceBatch(b) => {
                        self.table.update_from_batch(&b);
                        self.advance_tick(ticks)
                    },
                    FeedOutcome::NoData => self.advance_tick(ticks),
                    FeedOutcome::Unrecognized => self.advance_tick(ticks),
                    FeedOutcome::ProtocolError => self.fail(),
                },
                PipelineEvent::PublishFailed => self.fail(),
                _ => Vec::new(),
            },
            PipelineState::Backoff => match event {
                PipelineEvent::BackoffElapsed => {
                    self.state = PipelineState::Seeding;
                    let mut a: Vec<PipelineAction> = Vec::new();
                    a.push(PipelineAction::Seed);
                    a
                },
                _ => Vec::new(),
            },
        }
    }

    /// Publishes once, advances the tick counter, and renews the
    /// subscription at the boundary.
    fn advance_tick(&mut self, ticks: u64) -> (actions: Vec<PipelineAction>)
        requires
            ticks < RESUBSCRIBE_TICKS,
        ensures
            final(self).table == old(self).table,
            publish_tick(*old(self), *final(self), ticks, actions@),
    {
        self.publishes = bump_counter(self.publishes);
        if ticks + 1 == RESUBSCRIBE_TICKS {
            self.state = PipelineState::Streaming { ticks: 0 };
            self.resubscriptions = bump_counter(self.resubscriptions);
            let mut a: Vec<PipelineAction> = Vec::new();
            a.push(PipelineAction::Publish);
            a.push(PipelineAction::SleepTick);
            a.push(PipelineAction::Unsubscribe);
            a.push(PipelineAction::Resubscribe);
            proof {
                assert(a@ =~= seq![
                    PipelineAction::Publish,
                    PipelineAction::SleepTick,
                    PipelineAction::Unsubscribe,
                    PipelineAction::Resubscribe,
                ]);
            }
            a
        } else {
            self.state = PipelineState::Streaming { ticks: ticks + 1 };
            let mut a: Vec<PipelineAction> = Vec::new();
            a.push(PipelineAction::Publish);
            a.push(PipelineAction::SleepTick);
            proof {
                assert(a@ =~= seq![PipelineAction::Publish, PipelineAction::SleepTick]);
            }
            a
        }
    }

    /// Abandons the subscription and backs off, keeping the table.
    fn fail(&mut self) -> (actions: Vec<PipelineAction>)
        ensures
            failed_step(*old(self), *final(self), actions@),
    {
        self.state = PipelineState::Backoff;
        let mut a: Vec<PipelineAction> = Vec::new();
        a.push(PipelineAction::Unsubscribe);
        a.push(PipelineAction::SleepBackoff);
        proof {
            assert(a@ =~= seq![PipelineAction::Unsubscribe, PipelineAction::SleepBackoff]);
        }
        a
    }
}

/// Nothing about the pipeline changed.
pub open spec fn self_unchanged(pre: PricePipeline, post: PricePipeline) -> bool {
    &&& post.state == pre.state
    &&& post.table == pre.table
    &&& post.publishes == pre.publishes
    &&& post.resubscriptions == pre.resubscriptions
}

/// The table was merged with batch `b` exactly as
/// `NameToPriceMap::update_from_batch` promises: same keys in the same
/// order, entries found in the batch re-rounded, the rest untouched.
pub open spec fn table_merged(
    pre: NameToPriceMap,
    b: Seq<(String, u64)>,
    post: NameToPriceMap,
) -> bool {
    &&& post.spec_len() == pre.spec_len()
    &&& forall|i: int| 0 <= i < pre.spec_len() ==> post.spec_key(i) == pre.spec_key(i)
    &&& forall|i: int| 0 <= i < pre.spec_len() ==> #[trigger] post.spec_price(i) == {
        let p = pre.spec_price(i);
        match batch_lookup(b, pre.spec_key(i)) {
            Some(v) => spec_updated_price(p, v),
            Option::None => p,
        }
    }
}

/// One streaming tick: exactly one publish is issued — the sequence
/// number grows by exactly one, never skipping, never duplicating — a
/// tick elapses, and exactly at the resubscription boundary one
/// unsubscribe/resubscribe pair follows the publish.
pub open spec fn publish_tick(
    pre: PricePipeline,
    post: PricePipeline,
    ticks: u64,
    actions: Seq<PipelineAction>,
) -> bool {
    &&& post.publishes == bump(pre.publishes)
    &&& if ticks + 1 == RESUBSCRIBE_TICKS {
        &&& post.state == (PipelineState::Streaming { ticks: 0u64 })
        &&& post.resubscriptions == bump(pre.resubscriptions)
        &&& actions =~= seq![
            PipelineAction::Publish,
            PipelineAction::SleepTick,
            PipelineAction::Unsubscribe,
            PipelineAction::Resubscribe,
        ]
    } else {
        &&& post.state == (PipelineState::Streaming { ticks: (ticks + 1) as u64 })
        &&& post.resubscriptions == pre.resubscriptions
        &&& actions =~= seq![PipelineAction::Publish, PipelineAction::SleepTick]
    }
}

/// A failure while streaming: the subscription is dropped, the backoff
/// begins, and the table survives untouched for the next seeding.
pub open spec fn failed_step(
    pre: PricePipeline,
    post: PricePipeline,
    actions: Seq<PipelineAction>,
) -> bool {
    &&& post.state is Backoff
    &&& post.table == pre.table
    &&& post.publishes == pre.publishes
    &&& post.resubscriptions == pre.resubscriptions
    &&& actions =~= seq![PipelineAction::Unsubscribe, PipelineAction::SleepBackoff]
}

/// What the order-book mirror loop learns on one iteration.
pub enum BookEvent {
    /// The classifier's verdict on the next feed message.
    Feed(BookOutcome),
    /// The feed channel closed.
    ChannelClosed,
    /// Publishing failed (the channel has no receivers left).
    PublishFailed,
    /// The restart backoff has elapsed.
    BackoffElapsed,
}

/// The order-book mirror pipeline for one coin.
pub struct BookPipeline {
    pub state: PipelineState,
    pub book: Orderbook,
    pub publishes: u64,
    pub resubscriptions: u64,
}

impl BookPipeline {
    pub open spec fn wf(&self) -> bool {
        &&& self.book.wf()
        &&& !(self.state is Seeding)
        &&& (self.state matches PipelineState::Streaming { ticks } ==> ticks
            < RESUBSCRIBE_TICKS)
    }

    /// A fresh mirror for `coin`, holding an empty book.
    pub fn new(coin: String) -> (r: BookPipeline)
        ensures
            r.wf(),
            r.state == (PipelineState::Streaming { ticks: 0u64 }),
            r.book.coin@ == coin@,
            r.book.bids@.len() == 0,
            r.book.asks@.len() == 0,
            r.publishes == 0,
            r.resubscriptions == 0,
    {
        BookPipeline {
            state: PipelineState::Streaming { ticks: 0 },
            book: Orderbook::new(coin),
            publishes: 0,
            resubscriptions: 0,
        }
    }

    /// One decision of the book mirror.
    ///
    /// A snapshot replaces both sides wholesale (the feed is trusted to
    /// deliver each side sorted) and publishes once; a no-data or
    /// unrecognized message only costs a tick — the mirror publishes
    /// books solely on snapshots; errors, failed publishes and
    /// a closed channel back off, keeping the last book; the elapsed
    /// backoff resubscribes and resumes with the book intact.
    pub fn step(&mut self, event: BookEvent) -> (actions: Vec<PipelineAction>)
        requires
            old(self).wf(),
            event matches BookEvent::Feed(f) ==> (f matches BookOutcome::Snapshot {
                bids,
                asks,
            } ==> sorted_desc(bids@) && sorted_asc(asks@)),
        ensures
            final(self).wf(),
            final(self).book.coin@ == old(self).book.coin@,
            match old(self).state {
                PipelineState::Streaming { ticks } => match event {
                    BookEvent::Feed(f) => match f {
                        BookOutcome::Snapshot { bids, asks } => {
                            &&& final(self).book.bids@ == bids@
                            &&& final(self).book.asks@ == asks@
                            &&& book_publish_tick(*old(self), *final(self), ticks, actions@)
                        },
                        BookOutcome::NoData => {
                            &&& final(self).book == old(self).book
                            &&& book_quiet_tick(*old(self), *final(self), ticks, actions@)
                        },
                        BookOutcome::Unrecognized => {
                            &&& final(self).book == old(self).book
                            &&& book_quiet_tick(*old(self), *final(self), ticks, actions@)
                        },
                        BookOutcome::ProtocolError => book_failed_step(
                            *old(self),
                            *final(self),
                            actions@,
                        ),
                    },
                    BookEvent::ChannelClosed => book_failed_step(*old(self), *final(self), actions@),
                    BookEvent::PublishFailed => book_failed_step(*old(self), *final(self), actions@),
                    BookEvent::BackoffElapsed => book_unchanged(*old(self), *final(self))
                        && actions@ =~= Seq::<PipelineAction>::empty(),
                },
                _ => match event {
                    BookEvent::BackoffElapsed => {
                        &&& final(self).state == (PipelineState::Streaming { ticks: 0u64 })
                        &&& final(self).book == old(self).book
                        &&& final(self).publishes == old(self).publishes
                        &&& final(self).resubscriptions == old(self).resubscriptions
                        &&& actions@ =~= seq![PipelineAction::Resubscribe]
                    },
                    _ => book_unchanged(*old(self), *final(self)) && actions@ =~= Seq::<
                        PipelineAction,
                    >::empty(),
                },
            },
    {
        match self.state {
            PipelineState::Streaming { ticks } => match event {
                BookEvent::Feed(f) => match f {
                    BookOutcome::Snapshot { bids, asks } => {
                        self.book.update(bids, asks);
                        self.publishes = bump_counter(self.publishes);
                        self.book_advance(ticks, true)
                    },
                    BookOutcome::NoData => self.book_advance(ticks, false),
                    BookOutcome::Unrecognized => self.book_advance(ticks, false),
                    BookOutcome::ProtocolError => self.book_fail(),
                },
                BookEvent::ChannelClosed => self.book_fail(),
                BookEvent::PublishFailed => self.book_fail(),
                BookEvent::BackoffElapsed => Vec::new(),
            },
            _ => match event {
                BookEvent::BackoffElapsed => {
                    self.state = PipelineState::Streaming { ticks: 0 };
                    let mut a: Vec<PipelineAction> = Vec::new();
                    a.push(PipelineAction::Resubscribe);
                    proof {
                        assert(a@ =~= seq![PipelineAction::Resubscribe]);
                    }
                    a
                },
                _ => Vec::new(),
            },
        }
    }

    /// Advances the tick counter, renewing the subscription at the
    /// boundary; prepends the publish actions when a snapshot landed.
    fn book_advance(&mut self, ticks: u64, published: bool) -> (actions: Vec<PipelineAction>)
        requires
            ticks < RESUBSCRIBE_TICKS,
        ensures
            final(self).book == old(self).book,
            final(self).publishes == old(self).publishes,
            if published {
                book_tick_shape(*old(self), *final(self), ticks, actions@, seq![
                    PipelineAction::Publish,
                    PipelineAction::SleepTick,
                ])
            } else {
                book_tick_shape(*old(self), *final(self), ticks, actions@, seq![
                    PipelineAction::SleepTick,
                ])
            },
    {
        let mut a: Vec<PipelineAction> = Vec::new();
        if published {
            a.push(PipelineAction::Publish);
        }
        a.push(PipelineAction::SleepTick);
        if ticks + 1 == RESUBSCRIBE_TICKS {
            self.state = PipelineState::Streaming { ticks: 0 };
            self.resubscriptions = bump_counter(self.resubscriptions);
            a.push(PipelineAction::Unsubscribe);
            a.push(PipelineAction::Resubscribe);
            proof {
                if published {
                    assert(a@ =~= seq![
                        PipelineAction::Publish,
                        PipelineAction::SleepTick,
                    ] + seq![PipelineAction::Unsubscribe, PipelineAction::Resubscribe]);
                } else {
                    assert(a@ =~= seq![PipelineAction::SleepTick] + seq![
                        PipelineAction::Unsubscribe,
                        PipelineAction::Resubscribe,
                    ]);
                }
            }
        } else {
            self.state = PipelineState::Streaming { ticks: ticks + 1 };
            proof {
                if published {
                    assert(a@ =~= seq![PipelineAction::Publish, PipelineAction::SleepTick]);
                } else {
                    assert(a@ =~= seq![PipelineAction::SleepTick]);
                }
            }
        }
        a
    }

    /// Abandons the subscription and backs off, keeping the book.
    fn book_fail(&mut self) -> (actions: Vec<PipelineAction>)
        ensures
            book_failed_step(*old(self), *final(self), actions@),
    {
        self.state = PipelineState::Backoff;
        let mut a: Vec<PipelineAction> = Vec::new();
        a.push(PipelineAction::Unsubscribe);
        a.push(PipelineAction::SleepBackoff);
        proof {
            assert(a@ =~= seq![PipelineAction::Unsubscribe, PipelineAction::SleepBackoff]);
        }
        a
    }
}

/// Nothing about the mirror changed.
pub open spec fn book_unchanged(pre: BookPipeline, post: BookPipeline) -> bool {
    &&& post.state == pre.state
    &&& post.book == pre.book
    &&& post.publishes == pre.publishes
    &&& post.resubscriptions == pre.resubscriptions
}

/// A tick whose actions start with `lead` and append the renewal pair
/// exactly at the resubscription boundary.
pub open spec fn book_tick_shape(
    pre: BookPipeline,
    post: BookPipeline,
    ticks: u64,
    actions: Seq<PipelineAction>,
    lead: Seq<PipelineAction>,
) -> bool {
    if ticks + 1 == RESUBSCRIBE_TICKS {
        &&& post.state == (PipelineState::Streaming { ticks: 0u64 })
        &&& post.resubscriptions == bump(pre.resubscriptions)
        &&& actions =~= lead + seq![PipelineAction::Unsubscribe, PipelineAction::Resubscribe]
    } else {
        &&& post.state == (PipelineState::Streaming { ticks: (ticks + 1) as u64 })
        &&& post.resubscriptions == pre.resubscriptions
        &&& actions =~= lead
    }
}

/// A snapshot tick: one publish, one tick, renewal exactly at the bound.
pub open spec fn book_publish_tick(
    pre: BookPipeline,
    post: BookPipeline,
    ticks: u64,
    actions: Seq<PipelineAction>,
) -> bool {
    &&& post.publishes == bump(pre.publishes)
    &&& book_tick_shape(pre, post, ticks, actions, seq![
        PipelineAction::Publish,
        PipelineAction::SleepTick,
    ])
}

/// A quiet tick: no publish, one tick, renewal exactly at the bound.
pub open spec fn book_quiet_tick(
    pre: BookPipeline,
    post: BookPipeline,
    ticks: u64,
    actions: Seq<PipelineAction>,
) -> bool {
    &&& post.publishes == pre.publishes
    &&& book_tick_shape(pre, post, ticks, actions, seq![PipelineAction::SleepTick])
}

/// A failure while streaming: the subscription is dropped, the backoff
/// begins, and the book survives untouched.
pub open spec fn book_failed_step(
    pre: BookPipeline,
    post: BookPipeline,
    actions: Seq<PipelineAction>,
) -> bool {
    &&& post.state is Backoff
    &&& post.book == pre.book
    &&& post.publishes == pre.publishes
    &&& post.resubscriptions == pre.resubscriptions
    &&& actions =~= seq![PipelineAction::Unsubscribe, PipelineAction::SleepBackoff]
}

} // verus!
