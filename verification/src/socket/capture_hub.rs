//! The fan-out of one capture stream to its consumers.
//!
//! Every consumer has a backlog of bounded length. A frame that arrives at
//! a full backlog pushes out the oldest frame waiting there, so a slow
//! consumer loses old frames and never holds up the capture or the other
//! consumers.

use std::collections::VecDeque;
use vstd::prelude::*;
use vstd::slice::slice_to_vec;

verus! {

/// Number of frames that can wait for one consumer.
pub const CONSUMER_CAPACITY: usize = 64;

/// The frames waiting for a consumer after `frame` arrived: `frame` is the
/// newest; when `capacity` frames were waiting already, the oldest is gone.
pub open spec fn offered(pending: Seq<Seq<u8>>, capacity: nat, frame: Seq<u8>) -> Seq<Seq<u8>> {
    if pending.len() >= capacity {
        pending.drop_first().push(frame)
    } else {
        pending.push(frame)
    }
}

/// The frames waiting for a consumer after a run of frames arrived.
pub open spec fn offered_all(pending: Seq<Seq<u8>>, capacity: nat, frames: Seq<Seq<u8>>) -> Seq<
    Seq<u8>,
>
    decreases frames.len(),
{
    if frames.len() == 0 {
        pending
    } else {
        offered(offered_all(pending, capacity, frames.drop_last()), capacity, frames.last())
    }
}

/// The count of dropped frames after one more drop. It stops at the
/// largest number it can hold.
pub open spec fn one_more(dropped: u64) -> u64 {
    if dropped < u64::MAX {
        (dropped + 1) as u64
    } else {
        dropped
    }
}

/// The last `n` elements of `s`, or all of `s` if it has fewer.
pub open spec fn newest(s: Seq<Seq<u8>>, n: nat) -> Seq<Seq<u8>> {
    if s.len() <= n {
        s
    } else {
        s.subrange(s.len() - n, s.len() as int)
    }
}

/// After a run of frames has arrived at a backlog, the backlog holds the
/// newest frames of what was waiting followed by the run, as many as fit,
/// in capture order. So a frame of the run is waiting for the consumer
/// unless at least `capacity` frames arrived after it.
pub proof fn lemma_offered_all(pending: Seq<Seq<u8>>, capacity: nat, frames: Seq<Seq<u8>>)
    requires
        capacity > 0,
        pending.len() <= capacity,
    ensures
        offered_all(pending, capacity, frames) == newest(pending + frames, capacity),
        offered_all(pending, capacity, frames).len() <= capacity,
        forall|i: int|
            0 <= i < frames.len() && frames.len() - i <= capacity ==> offered_all(
                pending,
                capacity,
                frames,
            )[offered_all(pending, capacity, frames).len() - (frames.len() - i)]
                == #[trigger] frames[i],
    decreases frames.len(),
{
    let all = pending + frames;
    if frames.len() == 0 {
        assert(all =~= pending);
    } else {
        let init = frames.drop_last();
        lemma_offered_all(pending, capacity, init);
        let before = offered_all(pending, capacity, init);
        let after = offered_all(pending, capacity, frames);
        assert(pending + init =~= all.drop_last());
        assert(all.last() == frames.last());
        assert(after =~= newest(all, capacity));
        assert forall|i: int| 0 <= i < frames.len() && frames.len() - i <= capacity implies after[after.len()
            - (frames.len() - i)] == #[trigger] frames[i] by {
            assert(all[pending.len() + i] == frames[i]);
        }
    }
}

/// What happens at a backlog: a frame is captured, or the consumer takes
/// the oldest frame that waits.
pub enum BacklogEvent {
    Publish,
    Take,
}

/// Where the captured frames of a backlog have gone. Frames are named by
/// their number in capture order, from zero.
pub struct BacklogHistory {
    /// How many frames were captured.
    pub published: nat,
    /// The frames the consumer has taken, in the order it took them.
    pub seen: Seq<nat>,
    /// The frames that wait, oldest first.
    pub waiting: Seq<nat>,
    /// The frames that were pushed out, in the order they were.
    pub dropped: Seq<nat>,
}

/// The history after one more event.
pub open spec fn history_step(h: BacklogHistory, capacity: nat, event: BacklogEvent) -> BacklogHistory {
    match event {
        BacklogEvent::Publish => if h.waiting.len() >= capacity && h.waiting.len() > 0 {
            BacklogHistory {
                published: h.published + 1,
                seen: h.seen,
                waiting: h.waiting.drop_first().push(h.published),
                dropped: h.dropped.push(h.waiting[0]),
            }
        } else {
            BacklogHistory {
                published: h.published + 1,
                seen: h.seen,
                waiting: h.waiting.push(h.published),
                dropped: h.dropped,
            }
        },
        BacklogEvent::Take => if h.waiting.len() > 0 {
            BacklogHistory {
                published: h.published,
                seen: h.seen.push(h.waiting[0]),
                waiting: h.waiting.drop_first(),
                dropped: h.dropped,
            }
        } else {
            h
        },
    }
}

/// The history of a backlog that was empty before `events`.
pub open spec fn history_after(capacity: nat, events: Seq<BacklogEvent>) -> BacklogHistory
    decreases events.len(),
{
    if events.len() == 0 {
        BacklogHistory { published: 0, seen: Seq::empty(), waiting: Seq::empty(), dropped: Seq::empty() }
    } else {
        history_step(history_after(capacity, events.drop_last()), capacity, events.last())
    }
}

/// Whether the numbers of `s` grow strictly and stay below `bound`.
pub open spec fn in_capture_order(s: Seq<nat>, bound: nat) -> bool {
    &&& forall|i: int, j: int| 0 <= i < j < s.len() ==> s[i] < s[j]
    &&& forall|i: int| 0 <= i < s.len() ==> s[i] < bound
}

/// The frames with the numbers `numbers` out of the captured frames.
pub open spec fn frames_numbered(numbers: Seq<nat>, captured: Seq<Seq<u8>>) -> Seq<Seq<u8>> {
    numbers.map_values(|k: nat| captured[k as int])
}

/// Whatever is published and taken in whatever order, every captured frame
/// has been taken by the consumer, or waits for it, or was pushed out of a
/// full backlog and is counted as dropped; a frame is dropped only when as
/// many frames as fit wait behind it; and what the consumer takes, followed
/// by what waits, is in capture order.
pub proof fn lemma_history(capacity: nat, events: Seq<BacklogEvent>)
    requires
        capacity > 0,
    ensures
        ({
            let h = history_after(capacity, events);
            &&& forall|k: nat|
                k < h.published ==> h.seen.contains(k) || h.waiting.contains(k)
                    || h.dropped.contains(k)
            &&& h.seen.len() + h.waiting.len() + h.dropped.len() == h.published
            &&& h.waiting.len() <= capacity
            &&& in_capture_order(h.seen + h.waiting, h.published)
            &&& forall|i: int|
                0 <= i < h.dropped.len() ==> h.dropped[i] + capacity < h.published
        }),
    decreases events.len(),
{
    if events.len() > 0 {
        let before = history_after(capacity, events.drop_last());
        let after = history_after(capacity, events);
        lemma_history(capacity, events.drop_last());
        let old_line = before.seen + before.waiting;
        let new_line = after.seen + after.waiting;
        match events.last() {
            BacklogEvent::Publish => {
                if before.waiting.len() >= capacity {
                    let first = before.waiting[0];
                    assert(old_line[before.seen.len() as int] == first);
                    assert forall|k: nat| k < after.published implies after.seen.contains(k)
                        || after.waiting.contains(k) || after.dropped.contains(k) by {
                        if k == before.published {
                            assert(after.waiting[after.waiting.len() - 1] == k);
                        } else if before.waiting.contains(k) {
                            let i = choose|i: int|
                                0 <= i < before.waiting.len() && before.waiting[i] == k;
                            if i == 0 {
                                assert(after.dropped[after.dropped.len() - 1] == k);
                            } else {
                                assert(after.waiting[i - 1] == k);
                            }
                        } else if before.dropped.contains(k) {
                            let i = choose|i: int|
                                0 <= i < before.dropped.len() && before.dropped[i] == k;
                            assert(after.dropped[i] == k);
                        }
                    }
                    assert forall|i: int| 0 <= i < new_line.len() implies new_line[i]
                        < after.published by {
                        if i + 1 < new_line.len() {
                            let src = if i < before.seen.len() {
                                i
                            } else {
                                i + 1
                            };
                            assert(new_line[i] == old_line[src]);
                        }
                    }
                    assert forall|i: int, j: int| 0 <= i < j < new_line.len() implies new_line[i]
                        < new_line[j] by {
                        let si = if i < before.seen.len() {
                            i
                        } else {
                            i + 1
                        };
                        assert(new_line[i] == old_line[si]);
                        if j + 1 < new_line.len() {
                            let sj = if j < before.seen.len() {
                                j
                            } else {
                                j + 1
                            };
                            assert(new_line[j] == old_line[sj]);
                        }
                    }
                    assert forall|i: int| 0 <= i < after.dropped.len() implies after.dropped[i]
                        + capacity < after.published by {
                        if i == before.dropped.len() {
                            // the oldest that waited is below everything else that waited
                            assert forall|a: int, b: int|
                                0 <= a < b < before.waiting.len() implies before.waiting[a]
                                < before.waiting[b] by {
                                assert(old_line[before.seen.len() + a] == before.waiting[a]);
                                assert(old_line[before.seen.len() + b] == before.waiting[b]);
                            }
                            lemma_growing(before.waiting, before.waiting.len() - 1);
                            assert(old_line[old_line.len() - 1]
                                == before.waiting[before.waiting.len() - 1]);
                        } else {
                            assert(after.dropped[i] == before.dropped[i]);
                        }
                    }
                } else {
                    assert forall|k: nat| k < after.published implies after.seen.contains(k)
                        || after.waiting.contains(k) || after.dropped.contains(k) by {
                        if k == before.published {
                            assert(after.waiting[after.waiting.len() - 1] == k);
                        } else if before.waiting.contains(k) {
                            let i = choose|i: int|
                                0 <= i < before.waiting.len() && before.waiting[i] == k;
                            assert(after.waiting[i] == k);
                        }
                    }
                    assert(new_line =~= old_line.push(before.published));
                }
            },
            BacklogEvent::Take => {
                if before.waiting.len() > 0 {
                    assert(new_line =~= old_line);
                    assert forall|k: nat| k < after.published implies after.seen.contains(k)
                        || after.waiting.contains(k) || after.dropped.contains(k) by {
                        if before.seen.contains(k) {
                            let i = choose|i: int|
                                0 <= i < before.seen.len() && before.seen[i] == k;
                            assert(after.seen[i] == k);
                        } else if before.waiting.contains(k) {
                            let i = choose|i: int|
                                0 <= i < before.waiting.len() && before.waiting[i] == k;
                            if i == 0 {
                                assert(after.seen[after.seen.len() - 1] == k);
                            } else {
                                assert(after.waiting[i - 1] == k);
                            }
                        }
                    }
                }
            },
        }
    }
}

/// In a strictly growing sequence of numbers, the one at place `m` is at
/// least `m` above the first.
proof fn lemma_growing(s: Seq<nat>, m: int)
    requires
        0 <= m < s.len(),
        forall|a: int, b: int| 0 <= a < b < s.len() ==> s[a] < s[b],
    ensures
        s[0] + m <= s[m],
    decreases m,
{
    if m > 0 {
        lemma_growing(s, m - 1);
    }
}

/// The numbered history describes the frames of the backlog: where the
/// frames that wait are those numbered by the history, they still are
/// after a frame is captured and after the consumer takes one.
pub proof fn lemma_history_names_the_frames(
    h: BacklogHistory,
    capacity: nat,
    captured: Seq<Seq<u8>>,
)
    requires
        capacity > 0,
        h.waiting.len() <= capacity,
        h.published < captured.len(),
    ensures
        frames_numbered(history_step(h, capacity, BacklogEvent::Publish).waiting, captured)
            == offered(frames_numbered(h.waiting, captured), capacity, captured[h.published as int]),
        h.waiting.len() > 0 ==> frames_numbered(
            history_step(h, capacity, BacklogEvent::Take).waiting,
            captured,
        ) == frames_numbered(h.waiting, captured).drop_first(),
{
    assert(frames_numbered(history_step(h, capacity, BacklogEvent::Publish).waiting, captured)
        =~= offered(frames_numbered(h.waiting, captured), capacity, captured[h.published as int]));
    if h.waiting.len() > 0 {
        assert(frames_numbered(history_step(h, capacity, BacklogEvent::Take).waiting, captured)
            =~= frames_numbered(h.waiting, captured).drop_first());
    }
}

/// The backlog of one consumer.
pub struct ConsumerBacklog {
    pending: VecDeque<Vec<u8>>,
    dropped: u64,
}

impl ConsumerBacklog {
    /// The frames that wait, oldest first.
    pub closed spec fn pending(&self) -> Seq<Seq<u8>> {
        self.pending@.map_values(|f: Vec<u8>| f@)
    }

    /// How many frames were pushed out.
    pub closed spec fn dropped(&self) -> u64 {
        self.dropped
    }

    /// No more frames wait than fit.
    pub open spec fn wf(&self) -> bool {
        self.pending().len() <= CONSUMER_CAPACITY
    }

    /// An empty backlog.
    pub fn new() -> (r: ConsumerBacklog)
        ensures
            r.wf(),
            r.pending() == Seq::<Seq<u8>>::empty(),
            r.dropped() == 0,
    {
        let r = ConsumerBacklog { pending: VecDeque::new(), dropped: 0 };
        assert(r.pending() =~= Seq::<Seq<u8>>::empty());
        r
    }

    /// Puts `frame` behind the frames that wait. If the backlog is full the
    /// oldest frame is pushed out and counted. Says whether one was.
    pub fn offer(&mut self, frame: Vec<u8>) -> (overflowed: bool)
        requires
            old(self).wf(),
        ensures
            final(self).wf(),
            overflowed == (old(self).pending().len() >= CONSUMER_CAPACITY),
            final(self).pending() == offered(
                old(self).pending(),
                CONSUMER_CAPACITY as nat,
                frame@,
            ),
            final(self).pending().last() == frame@,
            final(self).dropped() == if overflowed {
                one_more(old(self).dropped())
            } else {
                old(self).dropped()
            },
    {
        let overflowed = self.pending.len() >= CONSUMER_CAPACITY;
        if overflowed {
            self.pending.pop_front();
            if self.dropped < u64::MAX {
                self.dropped = self.dropped + 1;
            }
        }
        self.pending.push_back(frame);
        proof {
            assert(self.pending() =~= offered(
                old(self).pending(),
                CONSUMER_CAPACITY as nat,
                frame@,
            ));
        }
        overflowed
    }

    /// Takes the oldest frame that waits, if one does.
    pub fn take(&mut self) -> (r: Option<Vec<u8>>)
        requires
            old(self).wf(),
        ensures
            final(self).wf(),
            final(self).dropped() == old(self).dropped(),
            r is Some <==> old(self).pending().len() > 0,
            r matches Some(frame) ==> frame@ == old(self).pending()[0] && final(self).pending()
                == old(self).pending().drop_first(),
            r is None ==> final(self).pending() == old(self).pending(),
    {
        let r = self.pending.pop_front();
        proof {
            if r is Some {
                assert(self.pending() =~= old(self).pending().drop_first());
            }
        }
        r
    }

    /// Number of frames that wait.
    pub fn len(&self) -> (r: usize)
        ensures
            r == self.pending().len(),
    {
        self.pending.len()
    }

    /// How many frames were pushed out so far.
    pub fn dropped_count(&self) -> (r: u64)
        ensures
            r == self.dropped(),
    {
        self.dropped
    }
}

/// Names one consumer of a hub.
#[derive(Clone, Copy, Debug, PartialEq, Eq, Structural)]
pub struct ConsumerHandle {
    pub index: usize,
}

/// Hands every captured frame to every registered consumer.
pub struct CaptureHub {
    consumers: Vec<ConsumerBacklog>,
    stopped: bool,
}

impl CaptureHub {
    /// Number of registered consumers.
    pub closed spec fn consumer_count(&self) -> nat {
        self.consumers@.len()
    }

    /// The frames that wait for consumer `i`, oldest first.
    pub closed spec fn pending(&self, i: int) -> Seq<Seq<u8>> {
        self.consumers@[i].pending()
    }

    /// How many frames were pushed out of the backlog of consumer `i`.
    pub closed spec fn dropped(&self, i: int) -> u64 {
        self.consumers@[i].dropped()
    }

    /// Whether the hub was told to stop.
    pub closed spec fn stopped(&self) -> bool {
        self.stopped
    }

    /// No backlog holds more than fits.
    pub closed spec fn wf(&self) -> bool {
        forall|i: int| 0 <= i < self.consumers@.len() ==> (#[trigger] self.consumers@[i]).wf()
    }

    /// A hub without consumers.
    pub fn new() -> (r: CaptureHub)
        ensures
            r.wf(),
            r.consumer_count() == 0,
            !r.stopped(),
    {
        CaptureHub { consumers: Vec::new(), stopped: false }
    }

    /// Registers a consumer. It is handed every frame published from now
    /// on; nothing waits for it yet.
    pub fn subscribe(&mut self) -> (handle: ConsumerHandle)
        requires
            old(self).wf(),
        ensures
            final(self).wf(),
            handle.index == old(self).consumer_count(),
            final(self).consumer_count() == old(self).consumer_count() + 1,
            final(self).stopped() == old(self).stopped(),
            final(self).pending(handle.index as int) == Seq::<Seq<u8>>::empty(),
            final(self).dropped(handle.index as int) == 0,
            forall|i: int|
                0 <= i < old(self).consumer_count() ==> final(self).pending(i) == old(
                    self,
                ).pending(i) && final(self).dropped(i) == old(self).dropped(i),
    {
        let index = self.consumers.len();
        self.consumers.push(ConsumerBacklog::new());
        ConsumerHandle { index }
    }

    /// Hands `frame` to every registered consumer: it becomes the newest
    /// frame of every backlog, and a full backlog loses its oldest frame,
    /// which is counted.
    pub fn publish(&mut self, frame: &[u8])
        requires
            old(self).wf(),
        ensures
            final(self).wf(),
            final(self).consumer_count() == old(self).consumer_count(),
            final(self).stopped() == old(self).stopped(),
            forall|i: int|
                0 <= i < old(self).consumer_count() ==> #[trigger] final(self).pending(i)
                    == offered(old(self).pending(i), CONSUMER_CAPACITY as nat, frame@),
            forall|i: int|
                0 <= i < old(self).consumer_count() ==> #[trigger] final(self).dropped(i) == if old(
                    self,
                ).pending(i).len() >= CONSUMER_CAPACITY {
                    one_more(old(self).dropped(i))
                } else {
                    old(self).dropped(i)
                },
    {
        let mut i: usize = 0;
        while i < self.consumers.len()
            invariant
                i <= self.consumers@.len(),
                self.consumers@.len() == old(self).consumers@.len(),
                self.stopped == old(self).stopped,
                self.wf(),
                old(self).wf(),
                forall|k: int|
                    0 <= k < i ==> (#[trigger] self.consumers@[k]).pending() == offered(
                        old(self).consumers@[k].pending(),
                        CONSUMER_CAPACITY as nat,
                        frame@,
                    ) && self.consumers@[k].dropped() == if old(self).consumers@[k].pending().len()
                        >= CONSUMER_CAPACITY {
                        one_more(old(self).consumers@[k].dropped())
                    } else {
                        old(self).consumers@[k].dropped()
                    },
                forall|k: int|
                    i <= k < self.consumers@.len() ==> #[trigger] self.consumers@[k] == old(
                        self,
                    ).consumers@[k],
            decreases self.consumers@.len() - i,
        {
            let mut backlog = self.consumers.remove(i);
            backlog.offer(slice_to_vec(frame));
            self.consumers.insert(i, backlog);
            i += 1;
        }
    }

    /// Takes the oldest frame that waits for `consumer`, if one does. An
    /// unknown consumer gets nothing.
    pub fn next_frame(&mut self, consumer: ConsumerHandle) -> (r: Option<Vec<u8>>)
        requires
            old(self).wf(),
        ensures
            final(self).wf(),
            final(self).consumer_count() == old(self).consumer_count(),
            final(self).stopped() == old(self).stopped(),
            r is Some <==> consumer.index < old(self).consumer_count() && old(self).pending(
                consumer.index as int,
            ).len() > 0,
            r matches Some(frame) ==> frame@ == old(self).pending(consumer.index as int)[0]
                && final(self).pending(consumer.index as int) == old(self).pending(
                consumer.index as int,
            ).drop_first(),
            forall|i: int|
                0 <= i < old(self).consumer_count() ==> final(self).dropped(i) == old(
                    self,
                ).dropped(i),
            forall|i: int|
                0 <= i < old(self).consumer_count() && (i != consumer.index || r is None)
                    ==> final(self).pending(i) == old(self).pending(i),
    {
        if consumer.index >= self.consumers.len() {
            return None;
        }
        let mut backlog = self.consumers.remove(consumer.index);
        let r = backlog.take();
        self.consumers.insert(consumer.index, backlog);
        r
    }

    /// Number of frames that wait for `consumer`; zero for an unknown one.
    pub fn backlog_len(&self, consumer: ConsumerHandle) -> (r: usize)
        ensures
            r == if consumer.index < self.consumer_count() {
                self.pending(consumer.index as int).len()
            } else {
                0
            },
    {
        if consumer.index < self.consumers.len() {
            self.consumers[consumer.index].len()
        } else {
            0
        }
    }

    /// How many frames `consumer` has lost; zero for an unknown one.
    pub fn dropped_count(&self, consumer: ConsumerHandle) -> (r: u64)
        ensures
            r == if consumer.index < self.consumer_count() {
                self.dropped(consumer.index as int)
            } else {
                0
            },
    {
        if consumer.index < self.consumers.len() {
            self.consumers[consumer.index].dropped_count()
        } else {
            0
        }
    }

    /// Tells the capture loop to end after the read it is in.
    pub fn stop(&mut self)
        ensures
            final(self).stopped(),
            final(self).consumer_count() == old(self).consumer_count(),
            forall|i: int|
                0 <= i < old(self).consumer_count() ==> final(self).pending(i) == old(
                    self,
                ).pending(i) && final(self).dropped(i) == old(self).dropped(i),
            old(self).wf() ==> final(self).wf(),
    {
        self.stopped = true;
    }

    /// Whether the capture loop is to end.
    pub fn is_stopped(&self) -> (r: bool)
        ensures
            r == self.stopped(),
    {
        self.stopped
    }
}

} // verus!
