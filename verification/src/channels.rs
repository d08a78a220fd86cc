//! Open UICC logical channels.

use vstd::prelude::*;

verus! {

/// Open UICC logical channels. Switch/disable must not close the eSIM channel
/// the operation itself is using.
#[derive(Debug, PartialEq, Eq)]
pub struct LogicalChannels {
    open: Vec<u8>,
    esim: Option<u8>,
}

/// Which channels are open, and which one is the eSIM's.
#[verifier::ext_equal]
pub struct ChannelsModel {
    pub open: Set<u8>,
    pub esim: Option<u8>,
}

/// Whether channels stand in ascending order, none twice.
pub open spec fn ascending(channels: Seq<u8>) -> bool {
    forall|i: int, j: int| 0 <= i < j < channels.len() ==> channels[i] < channels[j]
}

impl View for LogicalChannels {
    type V = ChannelsModel;

    closed spec fn view(&self) -> ChannelsModel {
        ChannelsModel { open: self.open@.to_set(), esim: self.esim }
    }
}

impl Default for LogicalChannels {
    fn default() -> (channels: Self)
        ensures
            channels@ == (ChannelsModel { open: Set::empty(), esim: None }),
    {
        let channels = LogicalChannels { open: Vec::new(), esim: None };
        proof {
            assert(channels@.open =~= Set::empty());
        }
        channels
    }
}

impl Clone for LogicalChannels {
    fn clone(&self) -> (copy: Self)
        ensures
            copy@ == self@,
    {
        proof {
            use_type_invariant(self);
        }
        LogicalChannels { open: crate::octets::copy_of(&self.open), esim: self.esim }
    }
}

fn insert_channel(open: Vec<u8>, channel: u8) -> (result: Vec<u8>)
    requires
        ascending(open@),
    ensures
        ascending(result@),
        result@.to_set() == open@.to_set().insert(channel),
{
    let mut i: usize = 0;
    while i < open.len() && open[i] < channel
        invariant
            i <= open@.len(),
            forall|j: int| 0 <= j < i ==> open@[j] < channel,
        decreases open@.len() - i,
    {
        i = i + 1;
    }
    if i < open.len() && open[i] == channel {
        proof {
            assert(open@.contains(open@[i as int]));
            assert(open@.to_set().insert(channel) =~= open@.to_set());
        }
        return open;
    }
    let ghost before = open@;
    let mut result: Vec<u8> = open;
    result.insert(i, channel);
    proof {
        let new = result@;
        assert(new =~= before.insert(i as int, channel));
        assert forall|a: int, b: int| 0 <= a < b < new.len() implies new[a] < new[b] by {
            let x = if a < i {
                a
            } else {
                a - 1
            };
            let y = if b < i {
                b
            } else {
                b - 1
            };
            if a != i {
                assert(new[a] == before[x]);
            }
            if b != i {
                assert(new[b] == before[y]);
            }
        }
        assert forall|c: u8| new.to_set().contains(c) <==> before.to_set().insert(
            channel,
        ).contains(c) by {
            if before.contains(c) {
                let k = choose|k: int| 0 <= k < before.len() && before[k] == c;
                if k < i {
                    assert(new[k] == c);
                } else {
                    assert(new[k + 1] == c);
                }
            }
            if c == channel {
                assert(new[i as int] == c);
            }
            if new.contains(c) && c != channel {
                let k = choose|k: int| 0 <= k < new.len() && new[k] == c;
                if k < i {
                    assert(before[k] == c);
                } else {
                    assert(before[k - 1] == c);
                }
            }
        }
        assert(new.to_set() =~= before.to_set().insert(channel));
    }
    result
}

impl LogicalChannels {
    #[verifier::type_invariant]
    spec fn well_formed(self) -> bool {
        ascending(self.open@)
    }

    /// A channel was opened.
    pub fn open(&mut self, channel: u8)
        ensures
            final(self)@ == (ChannelsModel {
                open: old(self)@.open.insert(channel),
                ..old(self)@
            }),
    {
        proof {
            use_type_invariant(&*self);
        }
        let mut open: Vec<u8> = Vec::new();
        std::mem::swap(&mut open, &mut self.open);
        let open: Vec<u8> = insert_channel(open, channel);
        self.open = open;
    }

    /// The eSIM's channel was opened.
    pub fn set_esim(&mut self, channel: u8)
        ensures
            final(self)@ == (ChannelsModel {
                open: old(self)@.open.insert(channel),
                esim: Some(channel),
            }),
    {
        self.open(channel);
        proof {
            use_type_invariant(&*self);
        }
        self.esim = Some(channel);
    }

    pub fn esim(&self) -> (channel: Option<u8>)
        ensures
            channel == self@.esim,
    {
        self.esim
    }

    /// Close every channel except the current eSIM ISD-R channel. Returns those
    /// that were closed, in ascending order.
    pub fn release_all_except_esim(&mut self) -> (closed: Vec<u8>)
        ensures
            final(self)@.esim == old(self)@.esim,
            final(self)@.open == old(self)@.open.filter(|c: u8| Some(c) == old(self)@.esim),
            ascending(closed@),
            closed@.to_set() == old(self)@.open.filter(|c: u8| Some(c) != old(self)@.esim),
    {
        proof {
            use_type_invariant(&*self);
        }
        let ghost all = self.open@;
        let mut open: Vec<u8> = Vec::new();
        std::mem::swap(&mut open, &mut self.open);
        let keep: Option<u8> = self.esim;
        let mut kept: Vec<u8> = Vec::new();
        let mut closed: Vec<u8> = Vec::new();
        let mut i: usize = 0;
        while i < open.len()
            invariant
                i <= open@.len(),
                open@ == all,
                ascending(all),
                ascending(kept@),
                ascending(closed@),
                forall|c: u8|
                    kept@.contains(c) <==> (Some(c) == keep && exists|j: int|
                        0 <= j < i && #[trigger] all[j] == c),
                forall|c: u8|
                    closed@.contains(c) <==> (Some(c) != keep && exists|j: int|
                        0 <= j < i && #[trigger] all[j] == c),
            decreases open@.len() - i,
        {
            let channel: u8 = open[i];
            let own: bool = match keep {
                Some(esim) => esim == channel,
                None => false,
            };
            let ghost old_kept = kept@;
            let ghost old_closed = closed@;
            if own {
                kept.push(channel);
                proof {
                    assert forall|a: int| 0 <= a < old_kept.len() implies old_kept[a]
                        < channel by {
                        assert(old_kept.contains(old_kept[a]));
                    }
                }
            } else {
                closed.push(channel);
                proof {
                    assert forall|a: int| 0 <= a < old_closed.len() implies old_closed[a]
                        < channel by {
                        assert(old_closed.contains(old_closed[a]));
                    }
                }
            }
            proof {
                assert forall|c: u8|
                    kept@.contains(c) <==> (Some(c) == keep && exists|j: int|
                        0 <= j < i + 1 && #[trigger] all[j] == c) by {
                    if own {
                        lemma_push(old_kept, channel, c);
                    }
                    if c == channel {
                        assert(all[i as int] == c);
                    }
                    if old_kept.contains(c) {
                        let j = choose|j: int| 0 <= j < i && #[trigger] all[j] == c;
                        assert(0 <= j < i + 1 && all[j] == c);
                    }
                }
                assert forall|c: u8|
                    closed@.contains(c) <==> (Some(c) != keep && exists|j: int|
                        0 <= j < i + 1 && #[trigger] all[j] == c) by {
                    if !own {
                        lemma_push(old_closed, channel, c);
                    }
                    if c == channel {
                        assert(all[i as int] == c);
                    }
                    if old_closed.contains(c) {
                        let j = choose|j: int| 0 <= j < i && #[trigger] all[j] == c;
                        assert(0 <= j < i + 1 && all[j] == c);
                    }
                }
            }
            i = i + 1;
        }
        proof {
            assert(kept@.to_set() =~= old(self)@.open.filter(
                |c: u8| Some(c) == old(self)@.esim,
            ));
            assert(closed@.to_set() =~= old(self)@.open.filter(
                |c: u8| Some(c) != old(self)@.esim,
            ));
        }
        self.open = kept;
        closed
    }

    pub fn is_open(&self, channel: u8) -> (yes: bool)
        ensures
            yes == self@.open.contains(channel),
    {
        let mut i: usize = 0;
        while i < self.open.len()
            invariant
                i <= self.open@.len(),
                forall|j: int| 0 <= j < i ==> self.open@[j] != channel,
            decreases self.open@.len() - i,
        {
            if self.open[i] == channel {
                proof {
                    assert(self.open@.contains(channel));
                }
                return true;
            }
            i = i + 1;
        }
        false
    }
}

proof fn lemma_push(list: Seq<u8>, channel: u8, c: u8)
    ensures
        list.push(channel).contains(c) <==> (c == channel || list.contains(c)),
{
    let new = list.push(channel);
    if c == channel {
        assert(new[list.len() as int] == c);
    }
    if list.contains(c) {
        let k = choose|k: int| 0 <= k < list.len() && list[k] == c;
        assert(new[k] == c);
    }
    if new.contains(c) && c != channel {
        let k = choose|k: int| 0 <= k < new.len() && new[k] == c;
        assert(list[k] == c);
    }
}

/// Releasing never closes the channel that the operation itself is using.
pub proof fn law_the_esim_channel_stays_open(channels: ChannelsModel)
    requires
        channels.esim is Some,
        channels.open.contains(channels.esim->0),
    ensures
        channels.open.filter(|c: u8| Some(c) == channels.esim).contains(channels.esim->0),
        !channels.open.filter(|c: u8| Some(c) != channels.esim).contains(channels.esim->0),
{
}

} // verus!
