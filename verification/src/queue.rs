//! Bounded-concurrency download queue.
//!
//! The queue holds every submitted job, keeps the not-yet-started jobs in a
//! FIFO pending sequence, and bounds the number of simultaneously running
//! jobs: `pop_next` hands out a job only while a concurrency slot is free,
//! and slots are released when a job reaches a terminal status.

use vstd::prelude::*;

use crate::config::DownloadConfig;
use crate::error::DownloadError;
use crate::progress::ProgressEvent;

verus! {

use vstd::string::StringExecFns;

/// Status of a queue item.
#[derive(Debug, Clone, Copy, PartialEq, Eq, Structural)]
pub enum QueueItemStatus {
    /// Waiting in the queue.
    Pending,
    /// Currently downloading.
    Downloading,
    /// Merging video and audio.
    Merging,
    /// Completed successfully.
    Completed,
    /// Failed with an error.
    Failed,
    /// Cancelled by the user.
    Cancelled,
}

/// A terminal status: the item will make no further progress.
pub open spec fn is_terminal(s: QueueItemStatus) -> bool {
    s == QueueItemStatus::Completed || s == QueueItemStatus::Failed || s
        == QueueItemStatus::Cancelled
}

/// A busy status: the item occupies a concurrency slot.
pub open spec fn is_busy(s: QueueItemStatus) -> bool {
    s == QueueItemStatus::Downloading || s == QueueItemStatus::Merging
}

/// Check whether a status is terminal.
pub fn is_terminal_status(s: QueueItemStatus) -> (r: bool)
    ensures
        r == is_terminal(s),
{
    match s {
        QueueItemStatus::Completed => true,
        QueueItemStatus::Failed => true,
        QueueItemStatus::Cancelled => true,
        _ => false,
    }
}

/// A single item in the download queue.
#[derive(Debug)]
pub struct QueueItem {
    /// Unique identifier, never reused.
    pub id: u64,
    /// The job configuration, immutable after creation.
    pub config: DownloadConfig,
    /// Current status.
    pub status: QueueItemStatus,
    /// Progress in hundredths of a percent (0..=10000).
    pub progress: u32,
    /// Download speed display string.
    pub speed: String,
    /// ETA in seconds, when known.
    pub eta_seconds: Option<u64>,
    /// Error message, when failed.
    pub error: Option<String>,
    /// Output file path, when completed.
    pub file_path: Option<String>,
    /// Media title, when fetched.
    pub title: Option<String>,
    /// Thumbnail URL, when fetched.
    pub thumbnail: Option<String>,
}

impl QueueItem {
    /// An item is well formed when its progress is within bounds.
    pub open spec fn wf(&self) -> bool {
        self.progress <= 10000
    }

    /// Create a fresh pending item.
    pub fn new(id: u64, config: DownloadConfig) -> (r: Self)
        ensures
            r.id == id,
            r.config == config,
            r.status == QueueItemStatus::Pending,
            r.progress == 0,
            r.speed@ == Seq::<char>::empty(),
            r.eta_seconds is None,
            r.error is None,
            r.file_path is None,
            r.title is None,
            r.thumbnail is None,
            r.wf(),
    {
        QueueItem {
            id,
            config,
            status: QueueItemStatus::Pending,
            progress: 0,
            speed: String::new(),
            eta_seconds: None,
            error: None,
            file_path: None,
            title: None,
            thumbnail: None,
        }
    }
}

impl Clone for QueueItem {
    /// Clones are equal to the original.
    fn clone(&self) -> (r: Self)
        ensures
            r == *self,
    {
        QueueItem {
            id: self.id,
            config: self.config.clone(),
            status: self.status,
            progress: self.progress,
            speed: self.speed.clone(),
            eta_seconds: self.eta_seconds,
            error: self.error.clone(),
            file_path: self.file_path.clone(),
            title: self.title.clone(),
            thumbnail: self.thumbnail.clone(),
        }
    }
}

/// All item identifiers are distinct.
pub open spec fn ids_unique(items: Seq<QueueItem>) -> bool {
    forall|i: int, j: int|
        0 <= i < j < items.len() ==> items[i].id != items[j].id
}

/// Some item carries the identifier.
pub open spec fn has_item(items: Seq<QueueItem>, id: u64) -> bool {
    exists|k: int| 0 <= k < items.len() && items[k].id == id
}

/// The identifier names a pending item.
pub open spec fn linked_pending(items: Seq<QueueItem>, id: u64) -> bool {
    exists|i: int|
        0 <= i < items.len() && (#[trigger] items[i]).id == id && items[i].status
            == QueueItemStatus::Pending
}

/// The identifier names a busy item.
pub open spec fn linked_busy(items: Seq<QueueItem>, id: u64) -> bool {
    exists|i: int|
        0 <= i < items.len() && (#[trigger] items[i]).id == id && is_busy(items[i].status)
}

/// Obtain the index of the pending item named by the identifier.
pub proof fn pending_witness(items: Seq<QueueItem>, id: u64) -> (i: int)
    requires
        linked_pending(items, id),
    ensures
        0 <= i < items.len() && items[i].id == id && items[i].status == QueueItemStatus::Pending,
{
    choose|i: int|
        0 <= i < items.len() && (#[trigger] items[i]).id == id && items[i].status
            == QueueItemStatus::Pending
}

/// An index with a pending item establishes the linkage.
pub proof fn pending_intro(items: Seq<QueueItem>, id: u64, i: int)
    requires
        0 <= i < items.len(),
        items[i].id == id,
        items[i].status == QueueItemStatus::Pending,
    ensures
        linked_pending(items, id),
{
}

/// Obtain the index of the busy item named by the identifier.
pub proof fn busy_witness(items: Seq<QueueItem>, id: u64) -> (i: int)
    requires
        linked_busy(items, id),
    ensures
        0 <= i < items.len() && items[i].id == id && is_busy(items[i].status),
{
    choose|i: int|
        0 <= i < items.len() && (#[trigger] items[i]).id == id && is_busy(items[i].status)
}

/// An index with a busy item establishes the linkage.
pub proof fn busy_intro(items: Seq<QueueItem>, id: u64, i: int)
    requires
        0 <= i < items.len(),
        items[i].id == id,
        is_busy(items[i].status),
    ensures
        linked_busy(items, id),
{
}

/// The download queue: every submitted item, the FIFO pending order, and the
/// identifiers of the jobs holding a concurrency slot.
#[derive(Debug)]
pub struct DownloadQueue {
    /// All queue items, in insertion order.
    pub items: Vec<QueueItem>,
    /// Identifiers of pending items, in FIFO order.
    pub pending: Vec<u64>,
    /// Identifiers of items holding a concurrency slot.
    pub active: Vec<u64>,
    /// Maximum number of concurrently running jobs.
    pub max_concurrent: usize,
    /// Next identifier to assign.
    pub next_id: u64,
}

impl DownloadQueue {
    /// Queue invariant.
    ///
    /// Identifiers are unique and below the allocation counter; the pending
    /// sequence lists distinct pending items; the active set lists distinct
    /// busy items, every busy item is in it, and it never exceeds the
    /// concurrency limit; pending and active are disjoint.
    pub open spec fn wf(&self) -> bool {
        &&& ids_unique(self.items@)
        &&& forall|k: int| 0 <= k < self.items@.len() ==> (#[trigger] self.items@[k]).id
            < self.next_id
        &&& forall|k: int| 0 <= k < self.items@.len() ==> (#[trigger] self.items@[k]).wf()
        &&& forall|i: int, j: int|
            0 <= i < j < self.pending@.len() ==> self.pending@[i] != self.pending@[j]
        &&& forall|k: int|
            0 <= k < self.pending@.len() ==> linked_pending(self.items@, #[trigger] self.pending@[k])
        &&& forall|i: int, j: int|
            0 <= i < j < self.active@.len() ==> self.active@[i] != self.active@[j]
        &&& forall|k: int|
            0 <= k < self.active@.len() ==> linked_busy(self.items@, #[trigger] self.active@[k])
        &&& forall|k: int|
            0 <= k < self.items@.len() && is_busy((#[trigger] self.items@[k]).status)
                ==> self.active@.contains(self.items@[k].id)
        &&& self.active@.len() <= self.max_concurrent
        &&& forall|i: int, j: int|
            0 <= i < self.pending@.len() && 0 <= j < self.active@.len() ==> self.pending@[i]
                != self.active@[j]
    }

    /// Create a queue with the given concurrency limit.
    pub fn new(max_concurrent: usize) -> (r: Self)
        ensures
            r.wf(),
            r.items@.len() == 0,
            r.pending@.len() == 0,
            r.active@.len() == 0,
            r.max_concurrent == max_concurrent,
            r.next_id == 1,
    {
        DownloadQueue {
            items: Vec::new(),
            pending: Vec::new(),
            active: Vec::new(),
            max_concurrent,
            next_id: 1,
        }
    }

    /// Add a new job: assign the next identifier, create the item pending,
    /// and append it to the items list and the pending sequence.
    pub fn add(&mut self, config: DownloadConfig) -> (r: QueueItem)
        requires
            old(self).wf(),
            old(self).next_id < u64::MAX,
        ensures
            final(self).wf(),
            r.id == old(self).next_id,
            r.config == config,
            r.status == QueueItemStatus::Pending,
            r.progress == 0,
            final(self).items@ == old(self).items@.push(r),
            final(self).pending@ == old(self).pending@.push(r.id),
            final(self).active@ == old(self).active@,
            final(self).max_concurrent == old(self).max_concurrent,
            final(self).next_id == old(self).next_id + 1,
    {
        let id = self.next_id;
        self.next_id = self.next_id + 1;
        let item = QueueItem::new(id, config);
        let out = item.clone();
        self.items.push(item);
        self.pending.push(id);
        proof {
            let items = self.items@;
            let pre = old(self).items@;
            assert forall|k: int|
                0 <= k < self.pending@.len() implies linked_pending(
                items,
                #[trigger] self.pending@[k],
            ) by {
                if k < old(self).pending@.len() {
                    let i = pending_witness(pre, old(self).pending@[k]);
                    pending_intro(items, self.pending@[k], i);
                } else {
                    pending_intro(items, self.pending@[k], items.len() - 1);
                }
            }
            assert forall|k: int|
                0 <= k < self.active@.len() implies linked_busy(
                items,
                #[trigger] self.active@[k],
            ) by {
                let i = busy_witness(pre, old(self).active@[k]);
                busy_intro(items, self.active@[k], i);
            }
        }
        out
    }

    /// All items, in insertion order.
    pub fn get_all(&self) -> (r: Vec<QueueItem>)
        ensures
            r@ == self.items@,
    {
        let mut out: Vec<QueueItem> = Vec::new();
        let mut i: usize = 0;
        let n = self.items.len();
        while i < n
            invariant
                0 <= i <= n,
                n == self.items@.len(),
                out@ == self.items@.take(i as int),
            decreases n - i,
        {
            out.push(self.items[i].clone());
            proof {
                assert(out@ =~= self.items@.take(i + 1));
            }
            i = i + 1;
        }
        proof {
            assert(self.items@.take(n as int) =~= self.items@);
        }
        out
    }

    /// Find an item by identifier.
    pub fn get(&self, id: u64) -> (r: Option<QueueItem>)
        ensures
            match r {
                Some(it) => exists|k: int|
                    0 <= k < self.items@.len() && (#[trigger] self.items@[k]).id == id
                        && self.items@[k] == it,
                None => !has_item(self.items@, id),
            },
    {
        match find_index(&self.items, id) {
            Some(i) => Some(self.items[i].clone()),
            None => None,
        }
    }

    /// Number of jobs holding a concurrency slot.
    pub fn active_count(&self) -> (r: usize)
        ensures
            r == self.active@.len(),
    {
        self.active.len()
    }

    /// Number of pending jobs.
    pub fn pending_count(&self) -> (r: usize)
        ensures
            r == self.pending@.len(),
    {
        self.pending.len()
    }

    /// Whether any job is pending.
    pub fn has_pending(&self) -> (r: bool)
        ensures
            r == (self.pending@.len() > 0),
    {
        self.pending.len() > 0
    }
}

/// Distinct identifiers.
pub open spec fn seq_distinct(s: Seq<u64>) -> bool {
    forall|i: int, j: int| 0 <= i < j < s.len() ==> s[i] != s[j]
}

/// The sequence with every occurrence of an identifier removed, order kept.
pub open spec fn remove_id_spec(s: Seq<u64>, id: u64) -> Seq<u64>
    decreases s.len(),
{
    if s.len() == 0 {
        Seq::empty()
    } else {
        let r = remove_id_spec(s.drop_last(), id);
        if s.last() == id {
            r
        } else {
            r.push(s.last())
        }
    }
}

/// What removing an identifier does: membership, distinctness and length.
pub proof fn lemma_remove_id_props(s: Seq<u64>, id: u64)
    ensures
        forall|x: u64| remove_id_spec(s, id).contains(x) <==> (s.contains(x) && x != id),
        seq_distinct(s) ==> seq_distinct(remove_id_spec(s, id)),
        remove_id_spec(s, id).len() <= s.len(),
        !s.contains(id) ==> remove_id_spec(s, id) == s,
    decreases s.len(),
{
    if s.len() == 0 {
        assert(remove_id_spec(s, id) =~= s);
        assert forall|x: u64| remove_id_spec(s, id).contains(x) implies (s.contains(x) && x != id)
            by {}
        assert forall|x: u64| s.contains(x) && x != id implies remove_id_spec(s, id).contains(x)
            by {}
    } else {
        let pre = s.drop_last();
        let last = s.last();
        lemma_remove_id_props(pre, id);
        let r = remove_id_spec(pre, id);
        assert(seq_distinct(s) ==> seq_distinct(pre)) by {
            if seq_distinct(s) {
                assert forall|i: int, j: int| 0 <= i < j < pre.len() implies pre[i] != pre[j] by {
                    assert(pre[i] == s[i] && pre[j] == s[j]);
                }
            }
        }
        assert forall|x: u64| s.contains(x) <==> (pre.contains(x) || x == last) by {
            if s.contains(x) {
                let w = choose|w: int| 0 <= w < s.len() && s[w] == x;
                if w < pre.len() {
                    assert(pre[w] == x);
                }
            }
            if pre.contains(x) {
                let w = choose|w: int| 0 <= w < pre.len() && pre[w] == x;
                assert(s[w] == x);
            }
            if x == last {
                assert(s[s.len() - 1] == x);
            }
        }
        if last == id {
            assert forall|x: u64|
                remove_id_spec(s, id).contains(x) implies (s.contains(x) && x != id) by {}
            assert forall|x: u64|
                s.contains(x) && x != id implies remove_id_spec(s, id).contains(x) by {}
        } else {
            assert(remove_id_spec(s, id) == r.push(last));
            assert forall|x: u64|
                remove_id_spec(s, id).contains(x) implies (s.contains(x) && x != id) by {
                let w = choose|w: int|
                    0 <= w < r.push(last).len() && r.push(last)[w] == x;
                if w < r.len() {
                    assert(r.contains(x));
                }
            }
            assert forall|x: u64|
                s.contains(x) && x != id implies remove_id_spec(s, id).contains(x) by {
                if x == last {
                    assert(r.push(last)[r.len() as int] == x);
                } else {
                    assert(pre.contains(x));
                    assert(r.contains(x));
                    let w = choose|w: int| 0 <= w < r.len() && r[w] == x;
                    assert(r.push(last)[w] == x);
                }
            }
            if seq_distinct(s) {
                assert(!pre.contains(last)) by {
                    if pre.contains(last) {
                        let w = choose|w: int| 0 <= w < pre.len() && pre[w] == last;
                        assert(s[w] == s[s.len() - 1]);
                    }
                }
                assert(!r.contains(last));
                assert forall|i: int, j: int|
                    0 <= i < j < r.push(last).len() implies r.push(last)[i] != r.push(last)[j] by {
                    if j < r.len() {
                    } else {
                        assert(r.push(last)[j] == last);
                        assert(r.push(last)[i] == r[i]);
                        assert(r.contains(r[i]));
                    }
                }
            }
            if !s.contains(id) {
                assert(!pre.contains(id));
                assert(remove_id_spec(s, id) =~= s);
            }
        }
    }
}

/// Remove every occurrence of an identifier from a vector.
fn remove_id(v: &mut Vec<u64>, id: u64)
    ensures
        final(v)@ == remove_id_spec(old(v)@, id),
{
    let n = v.len();
    let mut out: Vec<u64> = Vec::new();
    let mut i: usize = 0;
    while i < n
        invariant
            0 <= i <= n,
            n == v@.len(),
            v@ == old(v)@,
            out@ == remove_id_spec(v@.take(i as int), id),
        decreases n - i,
    {
        proof {
            assert(v@.take(i + 1).drop_last() =~= v@.take(i as int));
            assert(v@.take(i + 1).last() == v@[i as int]);
        }
        let x = v[i];
        if x != id {
            out.push(x);
        }
        i = i + 1;
    }
    proof {
        assert(v@.take(n as int) =~= v@);
    }
    *v = out;
}

impl DownloadQueue {
    /// Pop the next pending job when a concurrency slot is free: the head of
    /// the pending sequence becomes `Downloading`, takes a slot, and is
    /// returned. Returns `None` when nothing is pending or every slot is
    /// taken.
    pub fn pop_next(&mut self) -> (r: Option<QueueItem>)
        requires
            old(self).wf(),
        ensures
            final(self).wf(),
            final(self).max_concurrent == old(self).max_concurrent,
            final(self).next_id == old(self).next_id,
            match r {
                None => *final(self) == *old(self) && (old(self).pending@.len() == 0 || old(self).active@.len() >= old(self).max_concurrent),
                Some(it) => {
                    &&& old(self).pending@.len() > 0
                    &&& old(self).active@.len() < old(self).max_concurrent
                    &&& it.id == old(self).pending@[0]
                    &&& it.status == QueueItemStatus::Downloading
                    &&& final(self).pending@ == old(self).pending@.skip(1)
                    &&& final(self).active@ == old(self).active@.push(it.id)
                    &&& exists|k: int|
                        0 <= k < old(self).items@.len() && (#[trigger] old(self).items@[k]).id
                            == it.id && it == QueueItem {
                            status: QueueItemStatus::Downloading,
                            ..old(self).items@[k]
                        } && final(self).items@ == old(self).items@.update(k, it)
                },
            },
    {
        if self.pending.len() == 0 {
            return None;
        }
        if self.active.len() >= self.max_concurrent {
            return None;
        }
        let id = self.pending[0];
        let kopt = find_index(&self.items, id);
        let k = match kopt {
            Some(k) => k,
            None => {
                // Unreachable under the invariant: every pending identifier
                // names an item.
                proof {
                    assert(old(self).pending@.contains(id)) by {
                        assert(old(self).pending@[0] == id);
                    }
                    assert(false);
                }
                return None;
            },
        };
        self.pending.remove(0);
        self.active.push(id);
        self.items[k].status = QueueItemStatus::Downloading;
        let out = self.items[k].clone();
        proof {
            let pre = *old(self);
            let post = *self;
            assert(post.pending@ =~= pre.pending@.skip(1));
            assert(post.items@[k as int].id == id);
            assert forall|i: int, j: int|
                0 <= i < j < post.items@.len() implies post.items@[i].id != post.items@[j].id by {
                assert(pre.items@[i].id == post.items@[i].id);
                assert(pre.items@[j].id == post.items@[j].id);
            }
            // Pending linkage: surviving entries name unchanged items.
            assert forall|p: int|
                0 <= p < post.pending@.len() implies linked_pending(
                post.items@,
                #[trigger] post.pending@[p],
            ) by {
                assert(post.pending@[p] == pre.pending@[p + 1]);
                let i = pending_witness(pre.items@, pre.pending@[p + 1]);
                assert(pre.pending@[0] != pre.pending@[p + 1]);
                assert(i != k);
                pending_intro(post.items@, post.pending@[p], i);
            }
            // Active linkage: old entries kept, the new entry is downloading.
            assert forall|a: int|
                0 <= a < post.active@.len() implies linked_busy(
                post.items@,
                #[trigger] post.active@[a],
            ) by {
                if a < pre.active@.len() {
                    assert(post.active@[a] == pre.active@[a]);
                    let i = busy_witness(pre.items@, pre.active@[a]);
                    assert(pre.pending@[0] != pre.active@[a]);
                    assert(i != k);
                    busy_intro(post.items@, post.active@[a], i);
                } else {
                    assert(post.active@[a] == id);
                    busy_intro(post.items@, post.active@[a], k as int);
                }
            }
            // The new active entry is fresh: pending and active were disjoint.
            assert(!pre.active@.contains(id)) by {
                if pre.active@.contains(id) {
                    let a = choose|a: int| 0 <= a < pre.active@.len() && pre.active@[a] == id;
                    assert(pre.pending@[0] != pre.active@[a]);
                }
            }
            assert forall|i: int, j: int|
                0 <= i < j < post.active@.len() implies post.active@[i] != post.active@[j] by {
                if j == post.active@.len() - 1 {
                    assert(post.active@[j] == id);
                    assert(pre.active@.contains(pre.active@[i])) by {
                        assert(post.active@[i] == pre.active@[i]);
                    }
                }
            }
            // Busy items are all slotted.
            assert forall|i: int|
                0 <= i < post.items@.len() && is_busy((#[trigger] post.items@[i]).status)
                    implies post.active@.contains(post.items@[i].id) by {
                if i == k {
                    assert(post.active@[post.active@.len() - 1] == id);
                } else {
                    assert(pre.items@[i] == post.items@[i]);
                    assert(pre.active@.contains(pre.items@[i].id));
                    let a = choose|a: int|
                        0 <= a < pre.active@.len() && pre.active@[a] == pre.items@[i].id;
                    assert(post.active@[a] == pre.items@[i].id);
                }
            }
            // Pending and active stay disjoint.
            assert forall|p: int, a: int|
                0 <= p < post.pending@.len() && 0 <= a < post.active@.len() implies post.pending@[p]
                    != post.active@[a] by {
                assert(post.pending@[p] == pre.pending@[p + 1]);
                if a < pre.active@.len() {
                    assert(post.active@[a] == pre.active@[a]);
                } else {
                    assert(post.active@[a] == id);
                    assert(pre.pending@[0] != pre.pending@[p + 1]);
                }
            }
            assert(post.wf());
        }
        Some(out)
    }
}

/// Find the index of the item with the given identifier.
fn find_index(items: &Vec<QueueItem>, id: u64) -> (r: Option<usize>)
    ensures
        match r {
            Some(i) => i < items@.len() && items@[i as int].id == id,
            None => !has_item(items@, id),
        },
{
    let n = items.len();
    let mut i: usize = 0;
    while i < n
        invariant
            0 <= i <= n,
            n == items@.len(),
            forall|k: int| 0 <= k < i ==> (#[trigger] items@[k]).id != id,
        decreases n - i,
    {
        if items[i].id == id {
            return Some(i);
        }
        i = i + 1;
    }
    None
}

/// Whether a vector of identifiers contains the given one.
fn contains_u64(v: &Vec<u64>, x: u64) -> (r: bool)
    ensures
        r == v@.contains(x),
{
    let n = v.len();
    let mut i: usize = 0;
    while i < n
        invariant
            0 <= i <= n,
            n == v@.len(),
            forall|k: int| 0 <= k < i ==> v@[k] != x,
        decreases n - i,
    {
        if v[i] == x {
            return true;
        }
        i = i + 1;
    }
    proof {
        assert(!v@.contains(x));
    }
    false
}

// ---------------------------------------------------------------------------
// Shared invariant-preservation lemmas
// ---------------------------------------------------------------------------
/// The invariant survives moving one item to a non-pending, non-busy status
/// while dropping its identifier from the pending and active sequences.
proof fn lemma_wf_after_settle(pre: DownloadQueue, post: DownloadQueue, k: int, id: u64)
    requires
        pre.wf(),
        0 <= k < pre.items@.len(),
        pre.items@[k].id == id,
        post.items@.len() == pre.items@.len(),
        forall|i: int|
            0 <= i < pre.items@.len() && i != k ==> post.items@[i] == pre.items@[i],
        post.items@[k].id == id,
        post.items@[k].wf(),
        !is_busy(post.items@[k].status),
        post.items@[k].status != QueueItemStatus::Pending,
        post.pending@ == remove_id_spec(pre.pending@, id),
        post.active@ == remove_id_spec(pre.active@, id),
        post.max_concurrent == pre.max_concurrent,
        post.next_id == pre.next_id,
    ensures
        post.wf(),
{
    lemma_remove_id_props(pre.pending@, id);
    lemma_remove_id_props(pre.active@, id);
    assert forall|i: int, j: int|
        0 <= i < j < post.items@.len() implies post.items@[i].id != post.items@[j].id by {
        assert(pre.items@[i].id == post.items@[i].id);
        assert(pre.items@[j].id == post.items@[j].id);
    }
    assert forall|i: int|
        0 <= i < post.items@.len() implies (#[trigger] post.items@[i]).id < post.next_id
            && post.items@[i].wf() by {
        if i != k {
            assert(post.items@[i] == pre.items@[i]);
        }
    }
    assert forall|p: int|
        0 <= p < post.pending@.len() implies linked_pending(
        post.items@,
        #[trigger] post.pending@[p],
    ) by {
        let x = post.pending@[p];
        assert(post.pending@.contains(x));
        assert(pre.pending@.contains(x) && x != id);
        let q = choose|q: int| 0 <= q < pre.pending@.len() && pre.pending@[q] == x;
        let i = pending_witness(pre.items@, pre.pending@[q]);
        assert(i != k);
        pending_intro(post.items@, x, i);
    }
    assert forall|a: int|
        0 <= a < post.active@.len() implies linked_busy(
        post.items@,
        #[trigger] post.active@[a],
    ) by {
        let x = post.active@[a];
        assert(post.active@.contains(x));
        assert(pre.active@.contains(x) && x != id);
        let q = choose|q: int| 0 <= q < pre.active@.len() && pre.active@[q] == x;
        let i = busy_witness(pre.items@, pre.active@[q]);
        assert(i != k);
        busy_intro(post.items@, x, i);
    }
    assert forall|i: int|
        0 <= i < post.items@.len() && is_busy((#[trigger] post.items@[i]).status)
            implies post.active@.contains(post.items@[i].id) by {
        assert(i != k);
        assert(post.items@[i] == pre.items@[i]);
        assert(pre.active@.contains(pre.items@[i].id));
        assert(pre.items@[i].id != id) by {
            assert(pre.items@[k].id == id);
        }
    }
    assert forall|i: int, j: int|
        0 <= i < post.pending@.len() && 0 <= j < post.active@.len() implies post.pending@[i]
            != post.active@[j] by {
        let x = post.pending@[i];
        let y = post.active@[j];
        assert(post.pending@.contains(x) && post.active@.contains(y));
        assert(pre.pending@.contains(x) && pre.active@.contains(y));
        let qx = choose|q: int| 0 <= q < pre.pending@.len() && pre.pending@[q] == x;
        let qy = choose|q: int| 0 <= q < pre.active@.len() && pre.active@[q] == y;
        assert(pre.pending@[qx] != pre.active@[qy]);
    }
}

/// The invariant survives editing one item in place when its status either
/// stays what it was or moves between the two busy states, with the pending
/// and active sequences untouched.
proof fn lemma_wf_after_retouch(pre: DownloadQueue, post: DownloadQueue, k: int)
    requires
        pre.wf(),
        0 <= k < pre.items@.len(),
        post.items@.len() == pre.items@.len(),
        forall|i: int|
            0 <= i < pre.items@.len() && i != k ==> post.items@[i] == pre.items@[i],
        post.items@[k].id == pre.items@[k].id,
        post.items@[k].wf(),
        post.items@[k].status == pre.items@[k].status || (is_busy(pre.items@[k].status)
            && is_busy(post.items@[k].status)),
        post.pending@ == pre.pending@,
        post.active@ == pre.active@,
        post.max_concurrent == pre.max_concurrent,
        post.next_id == pre.next_id,
    ensures
        post.wf(),
{
    assert forall|i: int, j: int|
        0 <= i < j < post.items@.len() implies post.items@[i].id != post.items@[j].id by {
        assert(pre.items@[i].id == post.items@[i].id);
        assert(pre.items@[j].id == post.items@[j].id);
    }
    assert forall|i: int|
        0 <= i < post.items@.len() implies (#[trigger] post.items@[i]).id < post.next_id
            && post.items@[i].wf() by {
        if i != k {
            assert(post.items@[i] == pre.items@[i]);
        }
    }
    assert forall|p: int|
        0 <= p < post.pending@.len() implies linked_pending(
        post.items@,
        #[trigger] post.pending@[p],
    ) by {
        let i = pending_witness(pre.items@, pre.pending@[p]);
        if i == k {
            assert(post.items@[k].status == QueueItemStatus::Pending);
        }
        pending_intro(post.items@, post.pending@[p], i);
    }
    assert forall|a: int|
        0 <= a < post.active@.len() implies linked_busy(
        post.items@,
        #[trigger] post.active@[a],
    ) by {
        let i = busy_witness(pre.items@, pre.active@[a]);
        if i == k {
            assert(is_busy(post.items@[k].status));
        }
        busy_intro(post.items@, post.active@[a], i);
    }
    assert forall|i: int|
        0 <= i < post.items@.len() && is_busy((#[trigger] post.items@[i]).status)
            implies post.active@.contains(post.items@[i].id) by {
        if i == k {
            assert(is_busy(pre.items@[k].status));
        } else {
            assert(post.items@[i] == pre.items@[i]);
        }
    }
}

impl DownloadQueue {
    /// Record a progress event against an item: update the percentage, speed
    /// and ETA; a merging event moves a busy item to `Merging`. Unknown
    /// identifiers are ignored.
    pub fn update_progress(&mut self, id: u64, event: &ProgressEvent)
        requires
            old(self).wf(),
            event.wf(),
        ensures
            final(self).wf(),
            final(self).pending@ == old(self).pending@,
            final(self).active@ == old(self).active@,
            final(self).max_concurrent == old(self).max_concurrent,
            final(self).next_id == old(self).next_id,
            !has_item(old(self).items@, id) ==> final(self).items@ == old(self).items@,
            forall|k: int|
                0 <= k < old(self).items@.len() && (#[trigger] old(self).items@[k]).id == id
                    ==> final(self).items@ == old(self).items@.update(
                    k,
                    QueueItem {
                        progress: event.percentage,
                        speed: event.speed,
                        eta_seconds: event.eta_seconds,
                        status: if event.status@ == "merging"@ && is_busy(
                            old(self).items@[k].status,
                        ) {
                            QueueItemStatus::Merging
                        } else {
                            old(self).items@[k].status
                        },
                        ..old(self).items@[k]
                    },
                ),
    {
        let kopt = find_index(&self.items, id);
        match kopt {
            None => {
                proof {
                    assert(final(self).items@ =~= old(self).items@);
                }
            },
            Some(k) => {
                self.items[k].progress = event.percentage;
                self.items[k].speed = event.speed.clone();
                self.items[k].eta_seconds = event.eta_seconds;
                let is_merging = crate::text::str_eq(event.status.as_str(), "merging");
                let busy_now = match self.items[k].status {
                    QueueItemStatus::Downloading => true,
                    QueueItemStatus::Merging => true,
                    _ => false,
                };
                if is_merging && busy_now {
                    self.items[k].status = QueueItemStatus::Merging;
                }
                proof {
                    lemma_wf_after_retouch(*old(self), *self, k as int);
                    assert forall|k2: int|
                        0 <= k2 < old(self).items@.len() && (#[trigger] old(self).items@[k2]).id
                            == id implies final(self).items@ == old(self).items@.update(
                        k2,
                        QueueItem {
                            progress: event.percentage,
                            speed: event.speed,
                            eta_seconds: event.eta_seconds,
                            status: if event.status@ == "merging"@ && is_busy(
                                old(self).items@[k2].status,
                            ) {
                                QueueItemStatus::Merging
                            } else {
                                old(self).items@[k2].status
                            },
                            ..old(self).items@[k2]
                        },
                    ) by {
                        assert(k2 == k) by {
                            if k2 != k {
                                assert(old(self).items@[k2].id != old(self).items@[k as int].id);
                            }
                        }
                        assert(final(self).items@ =~= old(self).items@.update(
                            k as int,
                            final(self).items@[k as int],
                        ));
                    }
                }
            },
        }
    }

    /// Set an item's status. Terminal statuses release the item's concurrency
    /// slot and drop it from the pending order; the busy statuses apply only
    /// to an item already holding a slot; other requests are ignored.
    pub fn update_status(&mut self, id: u64, status: QueueItemStatus)
        requires
            old(self).wf(),
        ensures
            final(self).wf(),
            final(self).max_concurrent == old(self).max_concurrent,
            final(self).next_id == old(self).next_id,
            !has_item(old(self).items@, id) || status == QueueItemStatus::Pending || (is_busy(
                status,
            ) && !old(self).active@.contains(id)) ==> *final(self) == *old(self),
            forall|k: int|
                0 <= k < old(self).items@.len() && (#[trigger] old(self).items@[k]).id == id
                    && is_terminal(status) ==> final(self).items@ == old(self).items@.update(
                    k,
                    QueueItem { status: status, ..old(self).items@[k] },
                ) && final(self).pending@ == remove_id_spec(old(self).pending@, id) && final(self).active@ == remove_id_spec(old(self).active@, id),
            forall|k: int|
                0 <= k < old(self).items@.len() && (#[trigger] old(self).items@[k]).id == id
                    && is_busy(status) && old(self).active@.contains(id) ==> final(self).items@
                    == old(self).items@.update(k, QueueItem { status: status, ..old(self).items@[k] })
                    && final(self).pending@ == old(self).pending@ && final(self).active@ == old(self).active@,
    {
        let kopt = find_index(&self.items, id);
        let k = match kopt {
            None => {
                return ;
            },
            Some(k) => k,
        };
        proof {
            assert forall|k2: int|
                0 <= k2 < old(self).items@.len() && (#[trigger] old(self).items@[k2]).id == id
                    implies k2 == k by {
                if k2 != k {
                    assert(old(self).items@[k2].id != old(self).items@[k as int].id);
                }
            }
        }
        let terminal = is_terminal_status(status);
        if terminal {
            self.items[k].status = status;
            remove_id(&mut self.pending, id);
            remove_id(&mut self.active, id);
            proof {
                lemma_wf_after_settle(*old(self), *self, k as int, id);
                assert(final(self).items@ =~= old(self).items@.update(
                    k as int,
                    final(self).items@[k as int],
                ));
            }
            return ;
        }
        let busy = match status {
            QueueItemStatus::Downloading => true,
            QueueItemStatus::Merging => true,
            _ => false,
        };
        if busy {
            if contains_u64(&self.active, id) {
                proof {
                    // The slot holder with this identifier is this very item,
                    // so it is busy already.
                    let q = choose|q: int|
                        0 <= q < old(self).active@.len() && old(self).active@[q] == id;
                    let i = busy_witness(old(self).items@, old(self).active@[q]);
                    assert(i == k) by {
                        if i != k {
                            assert(old(self).items@[i].id != old(self).items@[k as int].id);
                        }
                    }
                }
                self.items[k].status = status;
                proof {
                    lemma_wf_after_retouch(*old(self), *self, k as int);
                    assert(final(self).items@ =~= old(self).items@.update(
                        k as int,
                        final(self).items@[k as int],
                    ));
                }
            }
        }
    }

    /// Mark an item completed: full progress, the file path recorded, its
    /// concurrency slot released. Unknown identifiers are ignored.
    pub fn complete(&mut self, id: u64, file_path: String)
        requires
            old(self).wf(),
        ensures
            final(self).wf(),
            final(self).max_concurrent == old(self).max_concurrent,
            final(self).next_id == old(self).next_id,
            !has_item(old(self).items@, id) ==> *final(self) == *old(self),
            forall|k: int|
                0 <= k < old(self).items@.len() && (#[trigger] old(self).items@[k]).id == id ==> {
                    &&& final(self).items@.len() == old(self).items@.len()
                    &&& (forall|i: int|
                        0 <= i < old(self).items@.len() && i != k ==> final(self).items@[i] == old(self).items@[i])
                    &&& final(self).items@[k].id == id
                    &&& final(self).items@[k].status == QueueItemStatus::Completed
                    &&& final(self).items@[k].progress == 10000
                    &&& final(self).items@[k].file_path matches Some(p) && p == file_path
                    &&& final(self).items@[k].speed@ == Seq::<char>::empty()
                    &&& final(self).items@[k].eta_seconds is None
                    &&& final(self).items@[k].config == old(self).items@[k].config
                    &&& final(self).items@[k].error == old(self).items@[k].error
                    &&& final(self).items@[k].title == old(self).items@[k].title
                    &&& final(self).pending@ == remove_id_spec(old(self).pending@, id)
                    &&& final(self).active@ == remove_id_spec(old(self).active@, id)
                },
    {
        let kopt = find_index(&self.items, id);
        let k = match kopt {
            None => {
                return ;
            },
            Some(k) => k,
        };
        proof {
            assert forall|k2: int|
                0 <= k2 < old(self).items@.len() && (#[trigger] old(self).items@[k2]).id == id
                    implies k2 == k by {
                if k2 != k {
                    assert(old(self).items@[k2].id != old(self).items@[k as int].id);
                }
            }
        }
        self.items[k].status = QueueItemStatus::Completed;
        self.items[k].progress = 10000;
        self.items[k].file_path = Some(file_path);
        self.items[k].speed = String::new();
        self.items[k].eta_seconds = None;
        remove_id(&mut self.pending, id);
        remove_id(&mut self.active, id);
        proof {
            lemma_wf_after_settle(*old(self), *self, k as int, id);
        }
    }

    /// Mark an item failed with the error's message; its concurrency slot is
    /// released. Unknown identifiers are ignored.
    pub fn fail(&mut self, id: u64, error: DownloadError)
        requires
            old(self).wf(),
        ensures
            final(self).wf(),
            final(self).max_concurrent == old(self).max_concurrent,
            final(self).next_id == old(self).next_id,
            !has_item(old(self).items@, id) ==> *final(self) == *old(self),
            forall|k: int|
                0 <= k < old(self).items@.len() && (#[trigger] old(self).items@[k]).id == id ==> {
                    &&& final(self).items@.len() == old(self).items@.len()
                    &&& (forall|i: int|
                        0 <= i < old(self).items@.len() && i != k ==> final(self).items@[i] == old(self).items@[i])
                    &&& final(self).items@[k].id == id
                    &&& final(self).items@[k].status == QueueItemStatus::Failed
                    &&& final(self).items@[k].error matches Some(m) && m@
                        == crate::error::download_error_message(error)
                    &&& final(self).items@[k].speed@ == Seq::<char>::empty()
                    &&& final(self).items@[k].eta_seconds is None
                    &&& final(self).items@[k].progress == old(self).items@[k].progress
                    &&& final(self).items@[k].config == old(self).items@[k].config
                    &&& final(self).pending@ == remove_id_spec(old(self).pending@, id)
                    &&& final(self).active@ == remove_id_spec(old(self).active@, id)
                },
    {
        let kopt = find_index(&self.items, id);
        let k = match kopt {
            None => {
                return ;
            },
            Some(k) => k,
        };
        proof {
            assert forall|k2: int|
                0 <= k2 < old(self).items@.len() && (#[trigger] old(self).items@[k2]).id == id
                    implies k2 == k by {
                if k2 != k {
                    assert(old(self).items@[k2].id != old(self).items@[k as int].id);
                }
            }
        }
        let message = error.message();
        self.items[k].status = QueueItemStatus::Failed;
        self.items[k].error = Some(message);
        self.items[k].speed = String::new();
        self.items[k].eta_seconds = None;
        remove_id(&mut self.pending, id);
        remove_id(&mut self.active, id);
        proof {
            lemma_wf_after_settle(*old(self), *self, k as int, id);
        }
    }

    /// Cancel an item: drop it from the pending order, release its slot, and
    /// mark it cancelled. The caller remains responsible for killing any
    /// running process. Always succeeds; unknown identifiers only leave the
    /// pending order unchanged.
    pub fn cancel(&mut self, id: u64) -> (r: Result<(), DownloadError>)
        requires
            old(self).wf(),
        ensures
            final(self).wf(),
            r is Ok,
            final(self).max_concurrent == old(self).max_concurrent,
            final(self).next_id == old(self).next_id,
            final(self).pending@ == remove_id_spec(old(self).pending@, id),
            final(self).active@ == remove_id_spec(old(self).active@, id),
            !has_item(old(self).items@, id) ==> final(self).items@ == old(self).items@,
            forall|k: int|
                0 <= k < old(self).items@.len() && (#[trigger] old(self).items@[k]).id == id
                    ==> final(self).items@ == old(self).items@.update(
                    k,
                    QueueItem { status: QueueItemStatus::Cancelled, ..old(self).items@[k] },
                ),
    {
        let kopt = find_index(&self.items, id);
        let k = match kopt {
            None => {
                remove_id(&mut self.pending, id);
                remove_id(&mut self.active, id);
                proof {
                    lemma_remove_id_props(old(self).pending@, id);
                    lemma_remove_id_props(old(self).active@, id);
                    // The identifier names no item, so it was in neither
                    // sequence and both removals are no-ops.
                    assert(!old(self).pending@.contains(id)) by {
                        if old(self).pending@.contains(id) {
                            let q = choose|q: int|
                                0 <= q < old(self).pending@.len() && old(self).pending@[q] == id;
                            let i = pending_witness(old(self).items@, old(self).pending@[q]);
                            assert(has_item(old(self).items@, id));
                        }
                    }
                    assert(!old(self).active@.contains(id)) by {
                        if old(self).active@.contains(id) {
                            let q = choose|q: int|
                                0 <= q < old(self).active@.len() && old(self).active@[q] == id;
                            let i = busy_witness(old(self).items@, old(self).active@[q]);
                            assert(has_item(old(self).items@, id));
                        }
                    }
                    assert(final(self).wf());
                }
                return Ok(());
            },
            Some(k) => k,
        };
        proof {
            assert forall|k2: int|
                0 <= k2 < old(self).items@.len() && (#[trigger] old(self).items@[k2]).id == id
                    implies k2 == k by {
                if k2 != k {
                    assert(old(self).items@[k2].id != old(self).items@[k as int].id);
                }
            }
        }
        self.items[k].status = QueueItemStatus::Cancelled;
        remove_id(&mut self.pending, id);
        remove_id(&mut self.active, id);
        proof {
            lemma_wf_after_settle(*old(self), *self, k as int, id);
            assert(final(self).items@ =~= old(self).items@.update(
                k as int,
                final(self).items@[k as int],
            ));
        }
        Ok(())
    }

    /// Record fetched media information against an item. Unknown identifiers
    /// are ignored.
    pub fn set_media_info(&mut self, id: u64, title: String, thumbnail: Option<String>)
        requires
            old(self).wf(),
        ensures
            final(self).wf(),
            final(self).pending@ == old(self).pending@,
            final(self).active@ == old(self).active@,
            final(self).max_concurrent == old(self).max_concurrent,
            final(self).next_id == old(self).next_id,
            !has_item(old(self).items@, id) ==> final(self).items@ == old(self).items@,
            forall|k: int|
                0 <= k < old(self).items@.len() && (#[trigger] old(self).items@[k]).id == id
                    ==> final(self).items@ == old(self).items@.update(
                    k,
                    QueueItem { title: Some(title), thumbnail: thumbnail, ..old(self).items@[k] },
                ),
    {
        let kopt = find_index(&self.items, id);
        let k = match kopt {
            None => {
                proof {
                    assert(final(self).items@ =~= old(self).items@);
                }
                return ;
            },
            Some(k) => k,
        };
        proof {
            assert forall|k2: int|
                0 <= k2 < old(self).items@.len() && (#[trigger] old(self).items@[k2]).id == id
                    implies k2 == k by {
                if k2 != k {
                    assert(old(self).items@[k2].id != old(self).items@[k as int].id);
                }
            }
        }
        self.items[k].title = Some(title);
        self.items[k].thumbnail = thumbnail;
        proof {
            lemma_wf_after_retouch(*old(self), *self, k as int);
            assert(final(self).items@ =~= old(self).items@.update(
                k as int,
                final(self).items@[k as int],
            ));
        }
    }
}


// ---------------------------------------------------------------------------
// Removal, bulk clearing, reordering, pausing
// ---------------------------------------------------------------------------
/// The items that survive a bulk clear: those not in a terminal status, in
/// their original order.
pub open spec fn keep_unfinished(items: Seq<QueueItem>) -> Seq<QueueItem>
    decreases items.len(),
{
    if items.len() == 0 {
        Seq::empty()
    } else {
        let r = keep_unfinished(items.drop_last());
        if is_terminal(items.last().status) {
            r
        } else {
            r.push(items.last())
        }
    }
}

proof fn lemma_keep_unfinished_props(items: Seq<QueueItem>)
    ensures
        forall|x: QueueItem| #[trigger]
            keep_unfinished(items).contains(x) <==> (items.contains(x) && !is_terminal(x.status)),
        ids_unique(items) ==> ids_unique(keep_unfinished(items)),
        keep_unfinished(items).len() <= items.len(),
    decreases items.len(),
{
    if items.len() == 0 {
        assert forall|x: QueueItem| #[trigger]
            keep_unfinished(items).contains(x) <==> (items.contains(x) && !is_terminal(
            x.status,
        )) by {
            if keep_unfinished(items).contains(x) {
                let w = choose|w: int|
                    0 <= w < keep_unfinished(items).len() && keep_unfinished(items)[w] == x;
            }
            if items.contains(x) {
                let w = choose|w: int| 0 <= w < items.len() && items[w] == x;
            }
        }
    } else {
        let pre = items.drop_last();
        let last = items.last();
        lemma_keep_unfinished_props(pre);
        let r = keep_unfinished(pre);
        assert(ids_unique(items) ==> ids_unique(pre)) by {
            if ids_unique(items) {
                assert forall|i: int, j: int|
                    0 <= i < j < pre.len() implies pre[i].id != pre[j].id by {
                    assert(pre[i] == items[i] && pre[j] == items[j]);
                }
            }
        }
        assert forall|x: QueueItem| #[trigger]
            keep_unfinished(items).contains(x) <==> (items.contains(x) && !is_terminal(
            x.status,
        )) by {
            if keep_unfinished(items).contains(x) {
                // Forward: the surviving element sits in the original list.
                let w = choose|w: int|
                    0 <= w < keep_unfinished(items).len() && keep_unfinished(items)[w] == x;
                if is_terminal(last.status) {
                    assert(r[w] == x);
                    assert(r.contains(x));
                    assert(pre.contains(x));
                    let v = choose|v: int| 0 <= v < pre.len() && pre[v] == x;
                    assert(items[v] == x);
                } else {
                    assert(r.push(last)[w] == x);
                    if w < r.len() {
                        assert(r[w] == x);
                        assert(r.contains(x));
                        assert(pre.contains(x));
                        let v = choose|v: int| 0 <= v < pre.len() && pre[v] == x;
                        assert(items[v] == x);
                    } else {
                        assert(x == last);
                        assert(items[items.len() - 1] == x);
                    }
                }
            }
            if items.contains(x) && !is_terminal(x.status) {
                // Backward: a non-terminal element survives.
                let w = choose|w: int| 0 <= w < items.len() && items[w] == x;
                if w < pre.len() {
                    assert(pre[w] == x);
                    assert(pre.contains(x));
                    assert(r.contains(x));
                    let v = choose|v: int| 0 <= v < r.len() && r[v] == x;
                    if is_terminal(last.status) {
                        assert(keep_unfinished(items)[v] == x);
                    } else {
                        assert(r.push(last)[v] == x);
                    }
                } else {
                    assert(x == last);
                    assert(!is_terminal(last.status));
                    assert(r.push(last)[r.len() as int] == x);
                }
            }
        }
        if ids_unique(items) && !is_terminal(last.status) {
            assert forall|i: int, j: int|
                0 <= i < j < r.push(last).len() implies r.push(last)[i].id != r.push(last)[j].id
                by {
                if j == r.len() {
                    let x = r.push(last)[i];
                    assert(r.contains(x)) by {
                        assert(r[i] == x);
                    }
                    assert(pre.contains(x));
                    let w = choose|w: int| 0 <= w < pre.len() && pre[w] == x;
                    assert(items[w].id != items[items.len() - 1].id);
                }
            }
        }
    }
}

impl DownloadQueue {
    /// Remove an item: allowed only once it is in a terminal status;
    /// otherwise the queue is unchanged and an error is returned.
    pub fn remove(&mut self, id: u64) -> (r: Result<(), DownloadError>)
        requires
            old(self).wf(),
        ensures
            final(self).wf(),
            final(self).max_concurrent == old(self).max_concurrent,
            final(self).next_id == old(self).next_id,
            final(self).pending@ == old(self).pending@,
            final(self).active@ == old(self).active@,
            r is Ok <==> exists|k: int|
                0 <= k < old(self).items@.len() && (#[trigger] old(self).items@[k]).id == id
                    && is_terminal(old(self).items@[k].status),
            r is Err ==> *final(self) == *old(self),
            forall|k: int|
                0 <= k < old(self).items@.len() && (#[trigger] old(self).items@[k]).id == id
                    && is_terminal(old(self).items@[k].status) ==> final(self).items@ == old(self).items@.remove(k),
    {
        let kopt = find_index(&self.items, id);
        let k = match kopt {
            None => {
                return Err(DownloadError::GenericError(String::from_str(
                    "Cannot remove active item",
                )));
            },
            Some(k) => k,
        };
        proof {
            assert forall|k2: int|
                0 <= k2 < old(self).items@.len() && (#[trigger] old(self).items@[k2]).id == id
                    implies k2 == k by {
                if k2 != k {
                    assert(old(self).items@[k2].id != old(self).items@[k as int].id);
                }
            }
        }
        let terminal = is_terminal_status(self.items[k].status);
        if !terminal {
            return Err(DownloadError::GenericError(String::from_str(
                "Cannot remove active item",
            )));
        }
        self.items.remove(k);
        proof {
            let pre = *old(self);
            let post = *self;
            assert(post.items@ =~= pre.items@.remove(k as int));
            assert forall|i: int|
                0 <= i < post.items@.len() implies post.items@[i] == (if i < k {
                pre.items@[i]
            } else {
                pre.items@[i + 1]
            }) by {
                assert(pre.items@.remove(k as int) == pre.items@.subrange(0, k as int)
                    + pre.items@.subrange(k + 1, pre.items@.len() as int));
            }
            assert forall|i: int, j: int|
                0 <= i < j < post.items@.len() implies post.items@[i].id != post.items@[j].id by {}
            // Neither sequence named the removed (terminal) item.
            assert forall|p: int|
                0 <= p < post.pending@.len() implies linked_pending(
                post.items@,
                #[trigger] post.pending@[p],
            ) by {
                let i = pending_witness(pre.items@, pre.pending@[p]);
                assert(i != k) by {
                    if i == k {
                        assert(is_terminal(pre.items@[k as int].status));
                    }
                }
                if i < k {
                    pending_intro(post.items@, post.pending@[p], i);
                } else {
                    pending_intro(post.items@, post.pending@[p], i - 1);
                }
            }
            assert forall|a: int|
                0 <= a < post.active@.len() implies linked_busy(
                post.items@,
                #[trigger] post.active@[a],
            ) by {
                let i = busy_witness(pre.items@, pre.active@[a]);
                assert(i != k) by {
                    if i == k {
                        assert(is_terminal(pre.items@[k as int].status));
                    }
                }
                if i < k {
                    busy_intro(post.items@, post.active@[a], i);
                } else {
                    busy_intro(post.items@, post.active@[a], i - 1);
                }
            }
            assert forall|i: int|
                0 <= i < post.items@.len() && is_busy((#[trigger] post.items@[i]).status)
                    implies post.active@.contains(post.items@[i].id) by {
                if i < k {
                    assert(post.items@[i] == pre.items@[i]);
                } else {
                    assert(post.items@[i] == pre.items@[i + 1]);
                }
            }
            assert(post.wf());
        }
        Ok(())
    }

    /// Remove every item in a terminal status, keeping the rest in order.
    pub fn clear_completed(&mut self)
        requires
            old(self).wf(),
        ensures
            final(self).wf(),
            final(self).items@ == keep_unfinished(old(self).items@),
            final(self).pending@ == old(self).pending@,
            final(self).active@ == old(self).active@,
            final(self).max_concurrent == old(self).max_concurrent,
            final(self).next_id == old(self).next_id,
    {
        let n = self.items.len();
        let mut out: Vec<QueueItem> = Vec::new();
        let mut i: usize = 0;
        while i < n
            invariant
                0 <= i <= n,
                n == self.items@.len(),
                self.items@ == old(self).items@,
                out@ == keep_unfinished(self.items@.take(i as int)),
            decreases n - i,
        {
            proof {
                assert(self.items@.take(i + 1).drop_last() =~= self.items@.take(i as int));
                assert(self.items@.take(i + 1).last() == self.items@[i as int]);
            }
            let terminal = is_terminal_status(self.items[i].status);
            if !terminal {
                let it = self.items[i].clone();
                out.push(it);
            }
            i = i + 1;
        }
        proof {
            assert(self.items@.take(n as int) =~= self.items@);
        }
        self.items = out;
        proof {
            let pre = *old(self);
            let post = *self;
            lemma_keep_unfinished_props(pre.items@);
            let kept = keep_unfinished(pre.items@);
            assert forall|i: int|
                0 <= i < post.items@.len() implies (#[trigger] post.items@[i]).id < post.next_id
                    && post.items@[i].wf() by {
                assert(kept.contains(kept[i])) by {
                    assert(kept[i] == post.items@[i]);
                }
                assert(pre.items@.contains(post.items@[i]));
                let w = choose|w: int|
                    0 <= w < pre.items@.len() && pre.items@[w] == post.items@[i];
                assert(pre.items@[w].id < pre.next_id);
            }
            assert forall|p: int|
                0 <= p < post.pending@.len() implies linked_pending(
                post.items@,
                #[trigger] post.pending@[p],
            ) by {
                let i = pending_witness(pre.items@, pre.pending@[p]);
                let x = pre.items@[i];
                assert(pre.items@.contains(x)) by {
                    assert(pre.items@[i] == x);
                }
                assert(kept.contains(x));
                let w = choose|w: int| 0 <= w < kept.len() && kept[w] == x;
                pending_intro(post.items@, post.pending@[p], w);
            }
            assert forall|a: int|
                0 <= a < post.active@.len() implies linked_busy(
                post.items@,
                #[trigger] post.active@[a],
            ) by {
                let i = busy_witness(pre.items@, pre.active@[a]);
                let x = pre.items@[i];
                assert(pre.items@.contains(x)) by {
                    assert(pre.items@[i] == x);
                }
                assert(kept.contains(x));
                let w = choose|w: int| 0 <= w < kept.len() && kept[w] == x;
                busy_intro(post.items@, post.active@[a], w);
            }
            assert forall|i: int|
                0 <= i < post.items@.len() && is_busy((#[trigger] post.items@[i]).status)
                    implies post.active@.contains(post.items@[i].id) by {
                let x = post.items@[i];
                assert(kept.contains(x)) by {
                    assert(kept[i] == x);
                }
                assert(pre.items@.contains(x));
                let w = choose|w: int| 0 <= w < pre.items@.len() && pre.items@[w] == x;
                assert(pre.active@.contains(pre.items@[w].id));
            }
            assert(post.wf());
        }
    }

    /// Move a pending item one position toward the head of the queue.
    pub fn move_up(&mut self, id: u64)
        requires
            old(self).wf(),
        ensures
            final(self).wf(),
            final(self).items@ == old(self).items@,
            final(self).active@ == old(self).active@,
            final(self).max_concurrent == old(self).max_concurrent,
            final(self).next_id == old(self).next_id,
            !old(self).pending@.contains(id) || old(self).pending@.len() == 0 || old(self).pending@[0] == id ==> final(self).pending@ == old(self).pending@,
            forall|p: int|
                0 < p < old(self).pending@.len() && #[trigger] old(self).pending@[p] == id && (
                forall|q: int| 0 <= q < p ==> old(self).pending@[q] != id) ==> final(self).pending@ == old(self).pending@.update(p, old(self).pending@[p - 1]).update(
                    p - 1,
                    old(self).pending@[p],
                ),
    {
        let n = self.pending.len();
        let mut pos: usize = 0;
        let mut found = false;
        while pos < n && !found
            invariant
                0 <= pos <= n,
                n == self.pending@.len(),
                !found ==> forall|q: int| 0 <= q < pos ==> self.pending@[q] != id,
                found ==> pos < n && self.pending@[pos as int] == id && forall|q: int|
                    0 <= q < pos ==> self.pending@[q] != id,
            decreases n - pos + (if found { 0int } else { 1int }),
        {
            if self.pending[pos] == id {
                found = true;
            } else {
                pos = pos + 1;
            }
        }
        if found && pos > 0 {
            let a = self.pending[pos];
            let b = self.pending[pos - 1];
            self.pending[pos] = b;
            self.pending[pos - 1] = a;
            proof {
                lemma_swap_keeps_wf(*old(self), *self, pos as int, pos - 1);
            }
        } else {
            proof {
                assert(final(self).pending@ =~= old(self).pending@);
            }
        }
    }

    /// Move a pending item one position toward the tail of the queue.
    pub fn move_down(&mut self, id: u64)
        requires
            old(self).wf(),
        ensures
            final(self).wf(),
            final(self).items@ == old(self).items@,
            final(self).active@ == old(self).active@,
            final(self).max_concurrent == old(self).max_concurrent,
            final(self).next_id == old(self).next_id,
            !old(self).pending@.contains(id) || old(self).pending@.len() == 0 || old(self).pending@[old(self).pending@.len() - 1] == id ==> final(self).pending@ == old(self).pending@,
            forall|p: int|
                0 <= p < old(self).pending@.len() - 1 && #[trigger] old(self).pending@[p] == id
                    && (forall|q: int| 0 <= q < p ==> old(self).pending@[q] != id) ==> final(self).pending@ == old(self).pending@.update(p, old(self).pending@[p + 1]).update(
                    p + 1,
                    old(self).pending@[p],
                ),
    {
        let n = self.pending.len();
        let mut pos: usize = 0;
        let mut found = false;
        while pos < n && !found
            invariant
                0 <= pos <= n,
                n == self.pending@.len(),
                !found ==> forall|q: int| 0 <= q < pos ==> self.pending@[q] != id,
                found ==> pos < n && self.pending@[pos as int] == id && forall|q: int|
                    0 <= q < pos ==> self.pending@[q] != id,
            decreases n - pos + (if found { 0int } else { 1int }),
        {
            if self.pending[pos] == id {
                found = true;
            } else {
                pos = pos + 1;
            }
        }
        if found && pos < n - 1 {
            let a = self.pending[pos];
            let b = self.pending[pos + 1];
            self.pending[pos] = b;
            self.pending[pos + 1] = a;
            proof {
                lemma_swap_keeps_wf(*old(self), *self, pos as int, pos + 1);
                // The found position is the first occurrence of a distinct
                // sequence, so the quantified form applies to it alone.
            }
        } else {
            proof {
                assert(final(self).pending@ =~= old(self).pending@);
            }
        }
    }

    /// Put the pending order into the requested sequence: the requested
    /// identifiers that are pending come first, in the requested order
    /// without repeats; any pending identifier left unmentioned follows, in
    /// its old order.
    pub fn reorder(&mut self, ids: Vec<u64>)
        requires
            old(self).wf(),
        ensures
            final(self).wf(),
            final(self).items@ == old(self).items@,
            final(self).active@ == old(self).active@,
            final(self).max_concurrent == old(self).max_concurrent,
            final(self).next_id == old(self).next_id,
            final(self).pending@ == valid_order(ids@, old(self).pending@).add(
                leftover(old(self).pending@, valid_order(ids@, old(self).pending@)),
            ),
    {
        let n = ids.len();
        let mut valid: Vec<u64> = Vec::new();
        let mut i: usize = 0;
        while i < n
            invariant
                0 <= i <= n,
                n == ids@.len(),
                valid@ == valid_order(ids@.take(i as int), self.pending@),
                self.pending@ == old(self).pending@,
            decreases n - i,
        {
            proof {
                assert(ids@.take(i + 1).drop_last() =~= ids@.take(i as int));
                assert(ids@.take(i + 1).last() == ids@[i as int]);
            }
            let id = ids[i];
            if contains_u64(&self.pending, id) && !contains_u64(&valid, id) {
                valid.push(id);
            }
            i = i + 1;
        }
        proof {
            assert(ids@.take(n as int) =~= ids@);
        }
        let m = self.pending.len();
        let mut rest: Vec<u64> = Vec::new();
        let mut j: usize = 0;
        while j < m
            invariant
                0 <= j <= m,
                m == self.pending@.len(),
                self.pending@ == old(self).pending@,
                valid@ == valid_order(ids@, old(self).pending@),
                rest@ == leftover(self.pending@.take(j as int), valid@),
            decreases m - j,
        {
            proof {
                assert(self.pending@.take(j + 1).drop_last() =~= self.pending@.take(j as int));
                assert(self.pending@.take(j + 1).last() == self.pending@[j as int]);
            }
            let id = self.pending[j];
            if !contains_u64(&valid, id) {
                rest.push(id);
            }
            j = j + 1;
        }
        proof {
            assert(self.pending@.take(m as int) =~= self.pending@);
        }
        let ghost g_valid = valid@;
        let ghost g_rest = rest@;
        valid.append(&mut rest);
        self.pending = valid;
        proof {
            let pre = *old(self);
            let post = *self;
            assert(post.pending@ == g_valid.add(g_rest));
            lemma_valid_order_props(ids@, pre.pending@);
            lemma_leftover_props(pre.pending@, g_valid);
            // Distinctness: each half is distinct and the leftover avoids the
            // requested half.
            assert forall|p: int, q: int|
                0 <= p < q < post.pending@.len() implies post.pending@[p] != post.pending@[q] by {
                let vl = g_valid.len() as int;
                if q < vl {
                } else if p >= vl {
                    assert(g_rest[p - vl] != g_rest[q - vl]);
                } else {
                    assert(post.pending@[q] == g_rest[q - vl]);
                    assert(g_rest.contains(g_rest[q - vl])) by {
                        assert(g_rest[q - vl] == g_rest[q - vl]);
                    }
                    assert(!g_valid.contains(g_rest[q - vl]));
                    assert(g_valid.contains(g_valid[p])) by {
                        assert(g_valid[p] == post.pending@[p]);
                    }
                }
            }
            // Linkage and disjointness: both halves draw from the old pending
            // order.
            assert forall|p: int|
                0 <= p < post.pending@.len() implies linked_pending(
                post.items@,
                #[trigger] post.pending@[p],
            ) by {
                let x = post.pending@[p];
                assert(pre.pending@.contains(x)) by {
                    if p < g_valid.len() {
                        assert(g_valid.contains(x)) by {
                            assert(g_valid[p] == x);
                        }
                    } else {
                        assert(g_rest.contains(x)) by {
                            assert(g_rest[p - g_valid.len()] == x);
                        }
                    }
                }
                let q = choose|q: int| 0 <= q < pre.pending@.len() && pre.pending@[q] == x;
                let w = pending_witness(pre.items@, pre.pending@[q]);
                pending_intro(post.items@, x, w);
            }
            assert forall|p: int, a: int|
                0 <= p < post.pending@.len() && 0 <= a < post.active@.len() implies post.pending@[p]
                    != post.active@[a] by {
                let x = post.pending@[p];
                assert(pre.pending@.contains(x)) by {
                    if p < g_valid.len() {
                        assert(g_valid.contains(x)) by {
                            assert(g_valid[p] == x);
                        }
                    } else {
                        assert(g_rest.contains(x)) by {
                            assert(g_rest[p - g_valid.len()] == x);
                        }
                    }
                }
                let q = choose|q: int| 0 <= q < pre.pending@.len() && pre.pending@[q] == x;
                assert(pre.pending@[q] != pre.active@[a]);
            }
            assert(post.wf());
        }
    }

    /// Stop handing out pending items: the pending order is drained; the
    /// items themselves stay listed with a pending status.
    pub fn pause_all(&mut self)
        requires
            old(self).wf(),
        ensures
            final(self).wf(),
            final(self).pending@.len() == 0,
            final(self).items@ == old(self).items@,
            final(self).active@ == old(self).active@,
            final(self).max_concurrent == old(self).max_concurrent,
            final(self).next_id == old(self).next_id,
    {
        self.pending.clear();
    }

    /// Re-enqueue every item still showing a pending status that is not
    /// already in the pending order.
    pub fn resume_all(&mut self)
        requires
            old(self).wf(),
        ensures
            final(self).wf(),
            final(self).pending@ == resume_result(old(self).items@, old(self).pending@),
            final(self).items@ == old(self).items@,
            final(self).active@ == old(self).active@,
            final(self).max_concurrent == old(self).max_concurrent,
            final(self).next_id == old(self).next_id,
    {
        let n = self.items.len();
        let mut i: usize = 0;
        while i < n
            invariant
                0 <= i <= n,
                n == self.items@.len(),
                self.items@ == old(self).items@,
                self.active@ == old(self).active@,
                self.max_concurrent == old(self).max_concurrent,
                self.next_id == old(self).next_id,
                old(self).wf(),
                self.wf(),
                self.pending@ == resume_result(self.items@.take(i as int), old(self).pending@),
            decreases n - i,
        {
            proof {
                assert(self.items@.take(i + 1).drop_last() =~= self.items@.take(i as int));
                assert(self.items@.take(i + 1).last() == self.items@[i as int]);
            }
            let pending_status = match self.items[i].status {
                QueueItemStatus::Pending => true,
                _ => false,
            };
            if pending_status {
                let id = self.items[i].id;
                if !contains_u64(&self.pending, id) {
                    let ghost mid = *self;
                    self.pending.push(id);
                    proof {
                        let post = *self;
                        assert forall|p: int|
                            0 <= p < post.pending@.len() implies linked_pending(
                            post.items@,
                            #[trigger] post.pending@[p],
                        ) by {
                            if p < mid.pending@.len() {
                                assert(post.pending@[p] == mid.pending@[p]);
                                let w = pending_witness(mid.items@, mid.pending@[p]);
                                pending_intro(post.items@, post.pending@[p], w);
                            } else {
                                pending_intro(post.items@, post.pending@[p], i as int);
                            }
                        }
                        assert forall|p: int, a: int|
                            0 <= p < post.pending@.len() && 0 <= a < post.active@.len()
                                implies post.pending@[p] != post.active@[a] by {
                            if p == post.pending@.len() - 1 {
                                assert(post.pending@[p] == id);
                                if post.active@[a] == id {
                                    let w = busy_witness(mid.items@, mid.active@[a]);
                                    assert(w == i) by {
                                        if w != i as int {
                                            assert(mid.items@[w].id != mid.items@[i as int].id);
                                        }
                                    }
                                    assert(is_busy(mid.items@[i as int].status));
                                }
                            }
                        }
                        assert forall|p: int, q: int|
                            0 <= p < q < post.pending@.len() implies post.pending@[p]
                                != post.pending@[q] by {
                            if q == post.pending@.len() - 1 {
                                assert(post.pending@[q] == id);
                                assert(mid.pending@.contains(mid.pending@[p])) by {
                                    assert(post.pending@[p] == mid.pending@[p]);
                                }
                            }
                        }
                        assert(post.wf());
                    }
                }
            }
            i = i + 1;
        }
        proof {
            assert(self.items@.take(n as int) =~= self.items@);
        }
    }
}


/// The requested identifiers that are pending, in request order, without
/// repeats.
pub open spec fn valid_order(ids: Seq<u64>, pending: Seq<u64>) -> Seq<u64>
    decreases ids.len(),
{
    if ids.len() == 0 {
        Seq::empty()
    } else {
        let r = valid_order(ids.drop_last(), pending);
        if pending.contains(ids.last()) && !r.contains(ids.last()) {
            r.push(ids.last())
        } else {
            r
        }
    }
}

proof fn lemma_valid_order_props(ids: Seq<u64>, pending: Seq<u64>)
    ensures
        forall|x: u64| #[trigger] valid_order(ids, pending).contains(x) ==> pending.contains(x),
        seq_distinct(valid_order(ids, pending)),
    decreases ids.len(),
{
    if ids.len() > 0 {
        let pre = ids.drop_last();
        lemma_valid_order_props(pre, pending);
        let r = valid_order(pre, pending);
        let last = ids.last();
        if pending.contains(last) && !r.contains(last) {
            assert forall|x: u64| #[trigger]
                r.push(last).contains(x) implies pending.contains(x) by {
                let w = choose|w: int| 0 <= w < r.push(last).len() && r.push(last)[w] == x;
                if w < r.len() {
                    assert(r.contains(x)) by {
                        assert(r[w] == x);
                    }
                }
            }
            assert forall|i: int, j: int|
                0 <= i < j < r.push(last).len() implies r.push(last)[i] != r.push(last)[j] by {
                if j == r.len() {
                    assert(r.contains(r[i])) by {
                        assert(r.push(last)[i] == r[i]);
                    }
                }
            }
        }
    }
}

/// The pending identifiers not named by the request, in their old order.
pub open spec fn leftover(pending: Seq<u64>, named: Seq<u64>) -> Seq<u64>
    decreases pending.len(),
{
    if pending.len() == 0 {
        Seq::empty()
    } else {
        let r = leftover(pending.drop_last(), named);
        if named.contains(pending.last()) {
            r
        } else {
            r.push(pending.last())
        }
    }
}

proof fn lemma_leftover_props(pending: Seq<u64>, named: Seq<u64>)
    ensures
        forall|x: u64| #[trigger] leftover(pending, named).contains(x) ==> pending.contains(x)
            && !named.contains(x),
        seq_distinct(pending) ==> seq_distinct(leftover(pending, named)),
    decreases pending.len(),
{
    if pending.len() > 0 {
        let pre = pending.drop_last();
        assert(seq_distinct(pending) ==> seq_distinct(pre)) by {
            if seq_distinct(pending) {
                assert forall|i: int, j: int| 0 <= i < j < pre.len() implies pre[i] != pre[j] by {
                    assert(pre[i] == pending[i] && pre[j] == pending[j]);
                }
            }
        }
        lemma_leftover_props(pre, named);
        let r = leftover(pre, named);
        let last = pending.last();
        if !named.contains(last) {
            assert forall|x: u64| #[trigger]
                r.push(last).contains(x) implies pending.contains(x) && !named.contains(x) by {
                let w = choose|w: int| 0 <= w < r.push(last).len() && r.push(last)[w] == x;
                if w < r.len() {
                    assert(r.contains(x)) by {
                        assert(r[w] == x);
                    }
                    let v = choose|v: int| 0 <= v < pre.len() && pre[v] == x;
                    assert(pending[v] == x);
                } else {
                    assert(pending[pending.len() - 1] == x);
                }
            }
            if seq_distinct(pending) {
                assert(!pre.contains(last)) by {
                    if pre.contains(last) {
                        let w = choose|w: int| 0 <= w < pre.len() && pre[w] == last;
                        assert(pending[w] == pending[pending.len() - 1]);
                    }
                }
                assert forall|i: int, j: int|
                    0 <= i < j < r.push(last).len() implies r.push(last)[i] != r.push(last)[j] by {
                    if j == r.len() {
                        let x = r.push(last)[i];
                        assert(r.contains(x)) by {
                            assert(r[i] == x);
                        }
                        assert(pre.contains(x));
                    }
                }
            }
        } else {
            assert forall|x: u64| #[trigger]
                r.contains(x) implies pending.contains(x) && !named.contains(x) by {
                let v = choose|v: int| 0 <= v < pre.len() && pre[v] == x;
                assert(pending[v] == x);
            }
        }
    }
}

/// What resuming produces: the pending order extended, in item order, with
/// the identifier of every pending-status item not yet queued.
pub open spec fn resume_result(items: Seq<QueueItem>, base: Seq<u64>) -> Seq<u64>
    decreases items.len(),
{
    if items.len() == 0 {
        base
    } else {
        let r = resume_result(items.drop_last(), base);
        if items.last().status == QueueItemStatus::Pending && !r.contains(items.last().id) {
            r.push(items.last().id)
        } else {
            r
        }
    }
}

/// Swapping two pending positions preserves the invariant.
proof fn lemma_swap_keeps_wf(pre: DownloadQueue, post: DownloadQueue, a: int, b: int)
    requires
        pre.wf(),
        0 <= a < pre.pending@.len(),
        0 <= b < pre.pending@.len(),
        post.pending@ == pre.pending@.update(a, pre.pending@[b]).update(b, pre.pending@[a]),
        post.items@ == pre.items@,
        post.active@ == pre.active@,
        post.max_concurrent == pre.max_concurrent,
        post.next_id == pre.next_id,
    ensures
        post.wf(),
{
    if a == b {
        assert(post.pending@ =~= pre.pending@);
    } else {
        assert forall|p: int|
            0 <= p < post.pending@.len() implies linked_pending(
            post.items@,
            #[trigger] post.pending@[p],
        ) by {
            let src: int = if p == a {
                b
            } else if p == b {
                a
            } else {
                p
            };
            assert(post.pending@[p] == pre.pending@[src]);
            let w = pending_witness(pre.items@, pre.pending@[src]);
            pending_intro(post.items@, post.pending@[p], w);
        }
        assert forall|p: int, q: int|
            0 <= p < q < post.pending@.len() implies post.pending@[p] != post.pending@[q] by {
            let sp: int = if p == a {
                b
            } else if p == b {
                a
            } else {
                p
            };
            let sq: int = if q == a {
                b
            } else if q == b {
                a
            } else {
                q
            };
            assert(post.pending@[p] == pre.pending@[sp]);
            assert(post.pending@[q] == pre.pending@[sq]);
        }
        assert forall|p: int, x: int|
            0 <= p < post.pending@.len() && 0 <= x < post.active@.len() implies post.pending@[p]
                != post.active@[x] by {
            let sp: int = if p == a {
                b
            } else if p == b {
                a
            } else {
                p
            };
            assert(post.pending@[p] == pre.pending@[sp]);
        }
    }
}


// ---------------------------------------------------------------------------
// Laws
// ---------------------------------------------------------------------------
/// Number of items in a busy (downloading or merging) status.
pub open spec fn busy_count(items: Seq<QueueItem>) -> int
    decreases items.len(),
{
    if items.len() == 0 {
        0
    } else {
        busy_count(items.drop_last()) + if is_busy(items.last().status) {
            1int
        } else {
            0int
        }
    }
}

proof fn lemma_busy_le(items: Seq<QueueItem>, s: Set<u64>)
    requires
        s.finite(),
        ids_unique(items),
        forall|k: int|
            0 <= k < items.len() && is_busy((#[trigger] items[k]).status) ==> s.contains(
                items[k].id,
            ),
    ensures
        busy_count(items) <= s.len(),
    decreases items.len(),
{
    broadcast use vstd::set::group_set_axioms;

    if items.len() > 0 {
        let pre = items.drop_last();
        let last = items.last();
        assert forall|i: int, j: int| 0 <= i < j < pre.len() implies pre[i].id != pre[j].id by {
            assert(pre[i] == items[i] && pre[j] == items[j]);
        }
        if is_busy(last.status) {
            assert(s.contains(last.id)) by {
                assert(items[items.len() - 1] == last);
            }
            let s2 = s.remove(last.id);
            assert forall|k: int|
                0 <= k < pre.len() && is_busy((#[trigger] pre[k]).status) implies s2.contains(
                pre[k].id,
            ) by {
                assert(pre[k] == items[k]);
                assert(items[k].id != last.id) by {
                    assert(items[items.len() - 1] == last);
                }
            }
            lemma_busy_le(pre, s2);
            assert(s2.len() == s.len() - 1);
        } else {
            assert forall|k: int|
                0 <= k < pre.len() && is_busy((#[trigger] pre[k]).status) implies s.contains(
                pre[k].id,
            ) by {
                assert(pre[k] == items[k]);
            }
            lemma_busy_le(pre, s);
        }
    }
}

/// Law (concurrency bound): a well-formed queue never holds more busy
/// (downloading or merging) items than its configured concurrency limit, no
/// matter how many jobs were enqueued.
pub proof fn lemma_concurrency_bound(q: DownloadQueue)
    requires
        q.wf(),
    ensures
        busy_count(q.items@) <= q.max_concurrent,
{
    broadcast use vstd::seq_lib::seq_to_set_is_finite;
    broadcast use vstd::set::group_set_axioms;

    let s = q.active@.to_set();
    q.active@.lemma_cardinality_of_set();
    assert forall|k: int|
        0 <= k < q.items@.len() && is_busy((#[trigger] q.items@[k]).status) implies s.contains(
        q.items@[k].id,
    ) by {
        assert(q.active@.contains(q.items@[k].id));
    }
    lemma_busy_le(q.items@, s);
}


} // verus!
