//! The network histories that the dashboard keeps from one batch of
//! readings to the next.

use vstd::prelude::*;
use crate::tui::dash_board::{Metric, MetricView};
use crate::tui::history::{newest, HistoryBuffer};

verus! {

/// The network histories of the monitored entities: for each entity a
/// window over its upload speeds and one over its download speeds, all of
/// one capacity. An entity that has not reported yet has empty histories.
pub struct Histories {
    capacity: usize,
    upload: Vec<HistoryBuffer<i64>>,
    download: Vec<HistoryBuffer<i64>>,
}

impl Histories {
    /// Whether there is a pair of windows for each entity, each of the
    /// common capacity.
    pub closed spec fn wf(&self) -> bool {
        &&& self.upload@.len() == self.download@.len()
        &&& forall|i: int|
            0 <= i < self.upload@.len() ==> (#[trigger] self.upload@[i]).spec_capacity()
                == self.capacity
        &&& forall|i: int|
            0 <= i < self.download@.len() ==> (#[trigger] self.download@[i]).spec_capacity()
                == self.capacity
    }

    /// The number of samples that each window holds at most.
    pub closed spec fn spec_capacity(&self) -> nat {
        self.capacity as nat
    }

    /// The number of entities that have windows.
    pub closed spec fn spec_len(&self) -> nat {
        self.upload@.len()
    }

    /// The upload speeds kept for `entity`, oldest first.
    pub closed spec fn upload_of(&self, entity: int) -> Seq<i64> {
        if 0 <= entity < self.upload@.len() {
            self.upload@[entity]@
        } else {
            Seq::empty()
        }
    }

    /// The download speeds kept for `entity`, oldest first.
    pub closed spec fn download_of(&self, entity: int) -> Seq<i64> {
        if 0 <= entity < self.download@.len() {
            self.download@[entity]@
        } else {
            Seq::empty()
        }
    }

    /// Histories for windows of `capacity` samples, with no entity yet.
    pub fn new(capacity: usize) -> (histories: Self)
        ensures
            histories.wf(),
            histories.spec_capacity() == capacity,
            histories.spec_len() == 0,
            forall|entity: int| #[trigger] histories.upload_of(entity) == Seq::<i64>::empty(),
            forall|entity: int| #[trigger] histories.download_of(entity) == Seq::<i64>::empty(),
    {
        Histories { capacity, upload: Vec::new(), download: Vec::new() }
    }

    /// The number of samples that each window holds at most.
    pub fn capacity(&self) -> (capacity: usize)
        ensures
            capacity == self.spec_capacity(),
    {
        self.capacity
    }

    /// The number of entities that have windows.
    pub fn len(&self) -> (len: usize)
        ensures
            len == self.spec_len(),
    {
        self.upload.len()
    }

    /// Takes in the network speeds that `entity` reports: each becomes the
    /// newest sample of its window, from which the oldest leaves where the
    /// window is full. The histories of the other entities stay as they
    /// are.
    pub fn record(&mut self, entity: usize, upload: i64, download: i64)
        requires
            old(self).wf(),
        ensures
            final(self).wf(),
            final(self).spec_capacity() == old(self).spec_capacity(),
            final(self).spec_len() == if old(self).spec_len() > entity {
                old(self).spec_len()
            } else {
                (entity + 1) as nat
            },
            final(self).upload_of(entity as int) == newest(
                old(self).upload_of(entity as int).push(upload),
                old(self).spec_capacity(),
            ),
            final(self).download_of(entity as int) == newest(
                old(self).download_of(entity as int).push(download),
                old(self).spec_capacity(),
            ),
            forall|other: int|
                #![trigger final(self).upload_of(other)]
                #![trigger old(self).upload_of(other)]
                other != entity ==> final(self).upload_of(other) == old(self).upload_of(other),
            forall|other: int|
                #![trigger final(self).download_of(other)]
                #![trigger old(self).download_of(other)]
                other != entity ==> final(self).download_of(other) == old(self).download_of(other),
    {
        while self.upload.len() <= entity
            invariant
                self.wf(),
                self.capacity == old(self).capacity,
                self.upload@.len() >= old(self).upload@.len(),
                self.upload@.len() > old(self).upload@.len() ==> self.upload@.len() <= entity + 1,
                forall|e: int|
                    #![trigger self.upload_of(e)]
                    #![trigger old(self).upload_of(e)]
                    self.upload_of(e) == old(self).upload_of(e),
                forall|e: int|
                    #![trigger self.download_of(e)]
                    #![trigger old(self).download_of(e)]
                    self.download_of(e) == old(self).download_of(e),
            decreases entity + 1 - self.upload@.len(),
        {
            self.upload.push(HistoryBuffer::new(self.capacity));
            self.download.push(HistoryBuffer::new(self.capacity));
        }
        self.upload[entity].push(upload);
        self.download[entity].push(download);
    }

    /// What is shown of `entity`: the readings given, and its histories as
    /// they are now.
    pub fn metric(&self, entity: usize, cpu: i64, ram: i64, upload: i64, download: i64) -> (m:
        Metric)
        requires
            self.wf(),
        ensures
            m@ == (MetricView {
                cpu: cpu as int,
                ram: ram as int,
                upload: upload as int,
                download: download as int,
                upload_history: self.upload_of(entity as int),
                download_history: self.download_of(entity as int),
            }),
    {
        let (up, down) = if entity < self.upload.len() {
            (self.upload[entity].snapshot(), self.download[entity].snapshot())
        } else {
            (Vec::new(), Vec::new())
        };
        Metric { cpu, ram, netspeed: (upload, download), net_history: (up, down) }
    }
}
} // verus!
