//! Walks over what lies below a node, and what the byte intervals found
//! there make up.

use vstd::prelude::*;
use crate::addr::Addr;
use crate::context::Context;
use crate::graph::lemma_flat_live;
use crate::kind::NodeKind;
use crate::kind::NodeRef;
use crate::record::Record;
use crate::store::Key;

verus! {

impl Context {
    /// The children of one kind of each of the given live nodes, one list
    /// after the other.
    pub fn descend(&self, above: NodeKind, parents: &Vec<Key>, kind: NodeKind) -> (keys: Vec<Key>)
        requires
            self.wf(),
            self@.all_live(above, parents@),
        ensures
            keys@ == self@.flat(above, parents@, kind),
            self@.all_live(kind, keys@),
    {
        let mut keys: Vec<Key> = Vec::new();
        let mut done: usize = 0;
        while done < parents.len()
            invariant
                done <= parents.len(),
                self@.all_live(above, parents@),
                keys@ == self@.flat(above, parents@.take(done as int), kind),
            decreases parents.len() - done,
        {
            let parent = NodeRef { kind: above, key: parents[done] };
            match self.node_iter(parent, kind) {
                Some(mut list) => {
                    keys.append(&mut list);
                },
                None => {},
            }
            proof {
                assert(parents@.take(done + 1).drop_last() == parents@.take(done as int));
                assert(parents@.take(done + 1).last() == parents@[done as int]);
            }
            done = done + 1;
        }
        proof {
            assert(parents@.take(done as int) == parents@);
            lemma_flat_live(self@, above, parents@, kind);
        }
        keys
    }

    /// The lowest address and the highest end of the given byte intervals,
    /// where there is an interval and each has an address.
    pub fn extent(&self, intervals: &Vec<Key>) -> (extent: Option<(Addr, Addr)>)
        requires
            self.wf(),
            self@.all_live(NodeKind::ByteInterval, intervals@),
        ensures
            extent is Some <==> intervals@.len() > 0 && self@.all_addressed(intervals@),
            extent is Some ==> extent->Some_0 == (
                Addr(self@.lowest(intervals@)),
                Addr(self@.highest(intervals@)),
            ),
    {
        let mut lowest: u64 = u64::MAX;
        let mut highest: u64 = 0;
        let mut done: usize = 0;
        while done < intervals.len()
            invariant
                done <= intervals.len(),
                self.wf(),
                self@.all_live(NodeKind::ByteInterval, intervals@),
                self@.all_addressed(intervals@.take(done as int)),
                lowest == self@.lowest(intervals@.take(done as int)),
                highest == self@.highest(intervals@.take(done as int)),
            decreases intervals.len() - done,
        {
            let node = NodeRef { kind: NodeKind::ByteInterval, key: intervals[done] };
            proof {
                assert(self@.live(node));
                assert(self@.nodes.dom().contains(node));
                assert(intervals@.take(done + 1).drop_last() == intervals@.take(done as int));
                assert(intervals@.take(done + 1).last() == intervals@[done as int]);
            }
            let (address, size) = match self.record(node) {
                Some(Record::ByteInterval(data)) => (data.address, data.size),
                _ => (None, 0),
            };
            match address {
                Some(address) => {
                    let end = address + Addr(size);
                    if address.0 < lowest {
                        lowest = address.0;
                    }
                    if end.0 > highest {
                        highest = end.0;
                    }
                    proof {
                        assert forall|i: int| 0 <= i < done + 1 implies (#[trigger] self@.interval(
                            intervals@.take(done + 1)[i],
                        )).address is Some by {
                            if i < done {
                                assert(intervals@.take(done + 1)[i] == intervals@.take(
                                    done as int,
                                )[i]);
                            }
                        }
                    }
                },
                None => {
                    proof {
                        assert(self@.interval(intervals@[done as int]).address is None);
                    }
                    return None;
                },
            }
            done = done + 1;
        }
        proof {
            assert(intervals@.take(done as int) == intervals@);
        }
        if intervals.len() == 0 {
            None
        } else {
            Some((Addr(lowest), Addr(highest)))
        }
    }
}

} // verus!
