//! The two transmit queues feeding the reliable layer: command payloads,
//! flushed ahead of everything and free of the window, and sequenced data
//! payloads awaiting the window.

use vstd::prelude::*;

verus! {

/// A data payload that has been assigned its 8-bit sequence number.
pub struct QueuedData {
    pub seq: u8,
    pub payload: Vec<u8>,
}

/// The pair of queues: commands (no sequence) and sequenced data.
pub struct CommandPool {
    cmd_queue: Vec<Vec<u8>>,
    data_queue: Vec<QueuedData>,
}

impl CommandPool {
    /// The queued command payloads, front first.
    pub closed spec fn cmds(&self) -> Seq<Seq<u8>> {
        self.cmd_queue@.map_values(|c: Vec<u8>| c@)
    }

    /// The queued data, front first, as sequence-number/payload pairs.
    pub closed spec fn datas(&self) -> Seq<(u8, Seq<u8>)> {
        self.data_queue@.map_values(|d: QueuedData| (d.seq, d.payload@))
    }

    /// Payloads small enough to be framed.
    pub open spec fn wf(&self) -> bool {
        &&& forall|i: int| 0 <= i < self.cmds().len() ==> (#[trigger] self.cmds()[i]).len() <= 0xFFFF
        &&& forall|i: int|
            0 <= i < self.datas().len() ==> (#[trigger] self.datas()[i]).1.len() <= 0xFFFF
    }

    /// Two empty queues.
    pub fn new() -> (r: CommandPool)
        ensures
            r.cmds() == Seq::<Seq<u8>>::empty(),
            r.datas() == Seq::<(u8, Seq<u8>)>::empty(),
            r.wf(),
    {
        let r = Self { cmd_queue: Vec::new(), data_queue: Vec::new() };
        proof {
            assert(r.cmds() =~= Seq::<Seq<u8>>::empty());
            assert(r.datas() =~= Seq::<(u8, Seq<u8>)>::empty());
        }
        r
    }

    /// Appends sequenced data at the back.
    pub fn push(&mut self, data: QueuedData)
        requires
            old(self).wf(),
            data.payload@.len() <= 0xFFFF,
        ensures
            final(self).wf(),
            final(self).datas() == old(self).datas().push((data.seq, data.payload@)),
            final(self).cmds() == old(self).cmds(),
    {
        self.data_queue.push(data);
        proof {
            assert(self.datas() =~= old(self).datas().push((data.seq, data.payload@)));
            assert(self.cmds() =~= old(self).cmds());
        }
    }

    /// Inserts sequenced data at the front.
    pub fn push_front(&mut self, data: QueuedData)
        requires
            old(self).wf(),
            data.payload@.len() <= 0xFFFF,
        ensures
            final(self).wf(),
            final(self).datas() == seq![(data.seq, data.payload@)] + old(self).datas(),
            final(self).cmds() == old(self).cmds(),
    {
        self.data_queue.insert(0, data);
        proof {
            assert(self.datas() =~= seq![(data.seq, data.payload@)] + old(self).datas());
            assert(self.cmds() =~= old(self).cmds());
        }
    }

    /// Inserts a run of sequenced data at the front, keeping its order:
    /// the first item of the run ends up first.
    pub fn extend_front(&mut self, items: Vec<QueuedData>)
        requires
            old(self).wf(),
            forall|i: int|
                0 <= i < items@.len() ==> (#[trigger] items@[i]).payload@.len() <= 0xFFFF,
        ensures
            final(self).wf(),
            final(self).datas() == items@.map_values(|d: QueuedData| (d.seq, d.payload@)) + old(
                self,
            ).datas(),
            final(self).cmds() == old(self).cmds(),
    {
        let ghost run = items@.map_values(|d: QueuedData| (d.seq, d.payload@));
        let mut rest = items;
        while rest.len() > 0
            invariant
                self.wf(),
                forall|i: int|
                    0 <= i < rest@.len() ==> (#[trigger] rest@[i]).payload@.len() <= 0xFFFF,
                rest@.map_values(|d: QueuedData| (d.seq, d.payload@)) + self.datas() == run + old(
                    self,
                ).datas(),
                self.cmds() == old(self).cmds(),
            decreases rest@.len(),
        {
            let ghost pre_rest = rest@;
            let ghost pre_datas = self.datas();
            let d = rest.pop().unwrap();
            self.data_queue.insert(0, d);
            proof {
                let f = |d: QueuedData| (d.seq, d.payload@);
                assert(self.datas() =~= seq![(d.seq, d.payload@)] + pre_datas);
                assert(pre_rest.map_values(f) =~= rest@.map_values(f).push((d.seq, d.payload@)));
                assert(rest@.map_values(f) + self.datas() =~= pre_rest.map_values(f) + pre_datas);
                assert(self.cmds() =~= old(self).cmds());
            }
        }
        proof {
            assert(rest@.map_values(|d: QueuedData| (d.seq, d.payload@)) =~= Seq::<(
                u8,
                Seq<u8>,
            )>::empty());
            assert(self.datas() =~= run + old(self).datas());
        }
    }

    /// Takes the front sequenced data, if any.
    pub fn pop_data(&mut self) -> (r: Option<QueuedData>)
        requires
            old(self).wf(),
        ensures
            final(self).wf(),
            r is Some <==> old(self).datas().len() > 0,
            r matches Some(d) ==> (d.seq, d.payload@) == old(self).datas()[0] && final(self).datas()
                == old(self).datas().skip(1) && d.payload@.len() <= 0xFFFF,
            r is None ==> final(self).datas() == old(self).datas(),
            final(self).cmds() == old(self).cmds(),
    {
        if self.data_queue.len() == 0 {
            return None;
        }
        let d = self.data_queue.remove(0);
        proof {
            assert(self.datas() =~= old(self).datas().skip(1));
            assert(self.cmds() =~= old(self).cmds());
        }
        Some(d)
    }

    /// Inserts a command payload at the front.
    pub fn push_cmd_front(&mut self, cmd: Vec<u8>)
        requires
            old(self).wf(),
            cmd@.len() <= 0xFFFF,
        ensures
            final(self).wf(),
            final(self).cmds() == seq![cmd@] + old(self).cmds(),
            final(self).datas() == old(self).datas(),
    {
        self.cmd_queue.insert(0, cmd);
        proof {
            assert(self.cmds() =~= seq![cmd@] + old(self).cmds());
            assert(self.datas() =~= old(self).datas());
        }
    }

    /// Takes the front command payload, if any.
    pub fn pop_cmd(&mut self) -> (r: Option<Vec<u8>>)
        requires
            old(self).wf(),
        ensures
            final(self).wf(),
            r is Some <==> old(self).cmds().len() > 0,
            r matches Some(c) ==> c@ == old(self).cmds()[0] && final(self).cmds() == old(
                self,
            ).cmds().skip(1) && c@.len() <= 0xFFFF,
            r is None ==> final(self).cmds() == old(self).cmds(),
            final(self).datas() == old(self).datas(),
    {
        if self.cmd_queue.len() == 0 {
            return None;
        }
        let c = self.cmd_queue.remove(0);
        proof {
            assert(self.cmds() =~= old(self).cmds().skip(1));
            assert(self.datas() =~= old(self).datas());
        }
        Some(c)
    }

    /// Whether both queues are empty.
    pub fn is_empty(&self) -> (r: bool)
        ensures
            r == (self.cmds().len() == 0 && self.datas().len() == 0),
    {
        self.cmd_queue.len() == 0 && self.data_queue.len() == 0
    }
}

} // verus!
