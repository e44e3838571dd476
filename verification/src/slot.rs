//! The frame slot: a mailbox for one sample between a delivery thread that
//! must never wait and consumers that sleep until the next sample comes.
//! Here it is a value with its rules; the lock and the sleeping are the
//! caller's.

use vstd::multiset::Multiset;
use vstd::prelude::*;

verus! {

/// What a frame slot keeps under its lock besides the sample itself. A
/// waiter copies it when its wait begins and is served once it has changed.
#[derive(Debug, Clone, Copy, PartialEq, Eq, Structural)]
pub struct State {
    /// Number of posts so far, delivered and dropped frames alike. It wraps
    /// around at `usize::MAX`.
    pub frame_counter: usize,
}

/// The counter after one more post.
pub open spec fn next_count(count: usize) -> usize {
    if count == usize::MAX {
        0
    } else {
        (count + 1) as usize
    }
}

/// The counter after `posts` more posts: it counts modulo the number of
/// values that a `usize` has.
pub open spec fn count_after(count: usize, posts: nat) -> usize {
    ((count + posts) % (usize::MAX + 1)) as usize
}

/// The samples among `posts`, in order: a post of `None` holds nothing that
/// could be released.
pub open spec fn samples_of<T>(posts: Seq<Option<T>>) -> Seq<T>
    decreases posts.len(),
{
    if posts.len() == 0 {
        Seq::empty()
    } else {
        match posts.last() {
            Some(sample) => samples_of(posts.drop_last()).push(sample),
            None => samples_of(posts.drop_last()),
        }
    }
}

/// A frame slot as a value: the pending sample and the post counter.
pub struct SlotView<T> {
    pub pending: Option<T>,
    pub state: State,
}

impl<T> SlotView<T> {
    /// The slot before anything was posted.
    pub open spec fn empty() -> Self {
        SlotView { pending: None, state: State { frame_counter: 0 } }
    }

    /// The slot after `sample` was posted: it holds `sample`, and the
    /// counter has moved on.
    pub open spec fn post(self, sample: Option<T>) -> Self {
        SlotView {
            pending: sample,
            state: State { frame_counter: next_count(self.state.frame_counter) },
        }
    }

    /// The slot after each of `posts` was posted in turn.
    pub open spec fn post_all(self, posts: Seq<Option<T>>) -> Self
        decreases posts.len(),
    {
        if posts.len() == 0 {
            self
        } else {
            self.post_all(posts.drop_last()).post(posts.last())
        }
    }

    /// The samples that posting each of `posts` in turn releases, in the
    /// order of their release: each post releases the sample that it finds.
    pub open spec fn released_by(self, posts: Seq<Option<T>>) -> Seq<T>
        decreases posts.len(),
    {
        if posts.len() == 0 {
            Seq::empty()
        } else {
            let before = self.post_all(posts.drop_last());
            match before.pending {
                Some(sample) => self.released_by(posts.drop_last()).push(sample),
                None => self.released_by(posts.drop_last()),
            }
        }
    }

    /// Whether a wait that began at `since` may end: something was posted
    /// after it began.
    pub open spec fn ready(self, since: State) -> bool {
        self.state.frame_counter != since.frame_counter
    }

    /// The slot after a waiter took what was pending.
    pub open spec fn taken(self) -> Self {
        SlotView { pending: None, state: self.state }
    }

    /// What a waiter that began at `since` gets from the slot, and the slot
    /// that it leaves.
    pub open spec fn wait(self, since: State) -> (Wait<T>, Self) {
        if self.ready(since) {
            (Wait::Ready(self.pending), self.taken())
        } else {
            (Wait::Pending, self)
        }
    }
}

/// What one look at the slot tells a waiter.
#[derive(Debug, PartialEq, Eq)]
pub enum Wait<T> {
    /// Nothing was posted since the wait began: go on waiting.
    Pending,
    /// The wait is over. The waiter owns the sample; `None` stands for a
    /// frame that the backend dropped or that another waiter took.
    Ready(Option<T>),
}

/// A mailbox for one sample. The delivery thread posts into it and never
/// waits; a newer sample replaces an older one that nobody took.
#[derive(Debug)]
pub struct Slot<T> {
    sample: Option<T>,
    state: State,
}

impl<T> View for Slot<T> {
    type V = SlotView<T>;

    closed spec fn view(&self) -> SlotView<T> {
        SlotView { pending: self.sample, state: self.state }
    }
}

impl<T> Slot<T> {
    /// An empty slot.
    pub fn new() -> (res: Self)
        ensures
            res@ == SlotView::<T>::empty(),
    {
        Slot { sample: None, state: State { frame_counter: 0 } }
    }

    /// The state to begin a wait with.
    pub fn state(&self) -> (res: State)
        ensures
            res == self@.state,
    {
        self.state
    }

    /// Puts `sample` in the place of the pending one and hands the old
    /// occupant back.
    fn set_sample(&mut self, sample: Option<T>) -> (old_sample: Option<T>)
        ensures
            old_sample == old(self)@.pending,
            final(self)@.pending == sample,
            final(self)@.state == old(self)@.state,
    {
        let mut incoming = sample;
        core::mem::swap(&mut self.sample, &mut incoming);
        incoming
    }

    /// Lets every waiter see that something was posted.
    fn notify_all(&mut self)
        ensures
            final(self)@.pending == old(self)@.pending,
            final(self)@.state.frame_counter == next_count(old(self)@.state.frame_counter),
    {
        self.state.frame_counter = self.state.frame_counter.wrapping_add(1);
    }

    /// Posts a sample, or `None` for a frame that the backend dropped. A
    /// sample that was pending and that nobody took is released here; the
    /// result says whether there was one.
    pub fn post(&mut self, sample: Option<T>) -> (released: bool)
        ensures
            final(self)@ == old(self)@.post(sample),
            released == (old(self)@.pending is Some),
    {
        let stale = self.set_sample(sample);
        self.notify_all();
        stale.is_some()
    }

    /// One look at the slot by a waiter whose wait began at `since`. Once
    /// something was posted the waiter takes what is pending and the slot
    /// is empty; until then the slot stays as it is. What was posted before
    /// the wait began is not for this waiter: it waits for the next post.
    pub fn wait_for_sample(&mut self, since: &State) -> (res: Wait<T>)
        ensures
            (res, final(self)@) == old(self)@.wait(*since),
    {
        if self.state.frame_counter != since.frame_counter {
            Wait::Ready(self.sample.take())
        } else {
            Wait::Pending
        }
    }
}

/// Counting one more post is one more step of the counter.
pub proof fn lemma_count_step(count: usize, posts: nat)
    ensures
        count_after(count, 0) == count,
        count_after(count, posts + 1) == next_count(count_after(count, posts)),
{
    let m = usize::MAX + 1;
    let before = count + posts;
    vstd::arithmetic::div_mod::lemma_small_mod(count as nat, m as nat);
    vstd::arithmetic::div_mod::lemma_add_mod_noop(before, 1, m);
    vstd::arithmetic::div_mod::lemma_small_mod(1, m as nat);
    vstd::arithmetic::div_mod::lemma_mod_bound(before, m);
    if before % m == usize::MAX {
        vstd::arithmetic::div_mod::lemma_mod_self_0(m);
    } else {
        vstd::arithmetic::div_mod::lemma_small_mod((before % m + 1) as nat, m as nat);
    }
}

/// Fewer posts than a `usize` has values always move the counter away from
/// where it stood.
pub proof fn lemma_count_moves(count: usize, posts: nat)
    requires
        0 < posts <= usize::MAX,
    ensures
        count_after(count, posts) != count,
{
    let m = usize::MAX + 1;
    if count + posts < m {
        vstd::arithmetic::div_mod::lemma_small_mod((count + posts) as nat, m as nat);
    } else {
        vstd::arithmetic::div_mod::lemma_mod_sub_multiples_vanish(count + posts, m);
        vstd::arithmetic::div_mod::lemma_small_mod((count + posts - m) as nat, m as nat);
    }
}

/// Latest wins. After any number of posts in a row, with no wait between
/// them, the slot holds the last of them and nothing else: every sample
/// that stood in the slot before the last post, the one found at the start
/// included, was released, each once and in the order of posting.
pub proof fn lemma_latest_post_wins<T>(slot: SlotView<T>, posts: Seq<Option<T>>)
    requires
        posts.len() > 0,
    ensures
        slot.post_all(posts).pending == posts.last(),
        slot.post_all(posts).state.frame_counter == count_after(
            slot.state.frame_counter,
            posts.len(),
        ),
        slot.released_by(posts) == samples_of(seq![slot.pending] + posts.drop_last()),
        slot.released_by(posts).len() == samples_of(seq![slot.pending] + posts.drop_last()).len(),
    decreases posts.len(),
{
    let earlier = posts.drop_last();
    let found = seq![slot.pending];
    lemma_count_step(slot.state.frame_counter, earlier.len());
    if earlier.len() == 0 {
        assert(samples_of(found.drop_last()) =~= Seq::<T>::empty());
        assert(slot.released_by(earlier) =~= Seq::<T>::empty());
    } else {
        lemma_latest_post_wins(slot, earlier);
        assert((found + earlier).drop_last() =~= found + earlier.drop_last());
    }
}

/// A waiter that was waiting while `posts` came in, however many and
/// however late it looks, gets the last of them.
pub proof fn lemma_wait_sees_latest_post<T>(slot: SlotView<T>, posts: Seq<Option<T>>)
    requires
        0 < posts.len() <= usize::MAX,
    ensures
        slot.post_all(posts).wait(slot.state).0 == Wait::Ready(posts.last()),
        slot.post_all(posts).wait(slot.state).1.pending == None::<T>,
{
    lemma_latest_post_wins(slot, posts);
    lemma_count_moves(slot.state.frame_counter, posts.len());
}

/// A wait does not end before something is posted, and leaves the slot as
/// it is until then; the first post ends it, and what was posted is what
/// the waiter gets.
pub proof fn lemma_wait_ends_with_first_post<T>(slot: SlotView<T>, sample: Option<T>)
    ensures
        slot.wait(slot.state) == (Wait::<T>::Pending, slot),
        slot.post(sample).wait(slot.state) == (Wait::Ready(sample), slot.post(sample).taken()),
{
}

/// A posted sample goes to one waiter only: of two waiters that the same
/// post wakes, the second finds the slot empty.
pub proof fn lemma_sample_delivered_once<T>(slot: SlotView<T>, sample: Option<T>)
    ensures
        ({
            let (first, left) = slot.post(sample).wait(slot.state);
            let (second, _) = left.wait(slot.state);
            first == Wait::Ready(sample) && second == Wait::Ready(None::<T>)
        }),
{
}

/// One thing that happens to a slot.
pub enum Event<T> {
    /// The delivery thread posts a sample, or `None` for a dropped frame.
    Post(Option<T>),
    /// A waiter whose wait began at this state looks at the slot.
    Look(State),
}

/// Where the samples of a run of events have gone.
pub struct Ledger<T> {
    /// The slot after the run.
    pub slot: SlotView<T>,
    /// The samples that were posted.
    pub posted: Seq<T>,
    /// The samples that waiters took.
    pub delivered: Seq<T>,
    /// The samples that posts released.
    pub released: Seq<T>,
}

/// `samples` and, where there is one, `sample` after them.
pub open spec fn push_sample<T>(samples: Seq<T>, sample: Option<T>) -> Seq<T> {
    match sample {
        Some(sample) => samples.push(sample),
        None => samples,
    }
}

/// The sample as a multiset of one, or of none.
pub open spec fn held<T>(sample: Option<T>) -> Multiset<T> {
    match sample {
        Some(sample) => Multiset::singleton(sample),
        None => Multiset::empty(),
    }
}

impl<T> SlotView<T> {
    /// The books of a slot after a run of posts and looks, in any order.
    pub open spec fn run(self, events: Seq<Event<T>>) -> Ledger<T>
        decreases events.len(),
    {
        if events.len() == 0 {
            Ledger {
                slot: self,
                posted: Seq::empty(),
                delivered: Seq::empty(),
                released: Seq::empty(),
            }
        } else {
            let before = self.run(events.drop_last());
            match events.last() {
                Event::Post(sample) => Ledger {
                    slot: before.slot.post(sample),
                    posted: push_sample(before.posted, sample),
                    delivered: before.delivered,
                    released: push_sample(before.released, before.slot.pending),
                },
                Event::Look(since) => Ledger {
                    slot: before.slot.wait(since).1,
                    posted: before.posted,
                    delivered: match before.slot.wait(since).0 {
                        Wait::Ready(sample) => push_sample(before.delivered, sample),
                        Wait::Pending => before.delivered,
                    },
                    released: before.released,
                },
            }
        }
    }
}

/// Every sample has one owner. Whatever posts and looks happen in whatever
/// order, the samples that were posted, with the one that the slot held at
/// first, are the samples that waiters took, those that posts released and
/// the one that the slot holds at last: none is lost, and none is handed
/// out twice.
pub proof fn lemma_every_sample_has_one_owner<T>(slot: SlotView<T>, events: Seq<Event<T>>)
    ensures
        ({
            let ledger = slot.run(events);
            let posted = ledger.posted.to_multiset();
            let delivered = ledger.delivered.to_multiset();
            let released = ledger.released.to_multiset();
            held(slot.pending).add(posted) == delivered.add(released).add(held(ledger.slot.pending))
        }),
    decreases events.len(),
{
    if events.len() == 0 {
        Seq::<T>::empty().to_multiset_ensures();
    } else {
        lemma_every_sample_has_one_owner(slot, events.drop_last());
        let before = slot.run(events.drop_last());
        match events.last() {
            Event::Post(sample) => {
                lemma_push_sample(before.posted, sample);
                lemma_push_sample(before.released, before.slot.pending);
                let delivered = before.delivered.to_multiset();
                let released = before.released.to_multiset();
                let pending = held(before.slot.pending);
                assert(delivered.add(released.add(pending)).add(held(sample)) =~= delivered.add(
                    released,
                ).add(pending).add(held(sample)));
            },
            Event::Look(since) => {
                if before.slot.ready(since) {
                    lemma_push_sample(before.delivered, before.slot.pending);
                }
            },
        }
    }
}

/// One more sample in a sequence is one more in its multiset.
proof fn lemma_push_sample<T>(samples: Seq<T>, sample: Option<T>)
    ensures
        push_sample(samples, sample).to_multiset() == samples.to_multiset().add(held(sample)),
{
    if let Some(sample) = sample {
        vstd::seq_lib::to_multiset_build(samples, sample);
    }
}

/// A run of posts alone is what `post_all` and `released_by` make of it.
pub proof fn lemma_run_of_posts<T>(slot: SlotView<T>, posts: Seq<Option<T>>)
    ensures
        ({
            let ledger = slot.run(posts.map_values(|sample: Option<T>| Event::Post(sample)));
            &&& ledger.slot == slot.post_all(posts)
            &&& ledger.released == slot.released_by(posts)
            &&& ledger.posted == samples_of(posts)
            &&& ledger.delivered == Seq::<T>::empty()
        }),
    decreases posts.len(),
{
    let events = posts.map_values(|sample: Option<T>| Event::Post(sample));
    if posts.len() > 0 {
        lemma_run_of_posts(slot, posts.drop_last());
        assert(events.drop_last() =~= posts.drop_last().map_values(
            |sample: Option<T>| Event::Post(sample),
        ));
    }
}

} // verus!
