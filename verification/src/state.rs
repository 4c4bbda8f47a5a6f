//! Application state: the reconciled device list, the status line, and
//! the selection that survives snapshot replacement by identity.

use vstd::prelude::*;

verus! {

broadcast use vstd::seq_lib::group_to_multiset_ensures;

use crate::device::DeviceInfo;
use crate::device::dev_le;
use crate::device::dev_le_exec;
use crate::device::find_device_index;
use crate::device::id_lookup;
use crate::device::lemma_dev_le_total;
use crate::device::lemma_dev_le_transitive;
use crate::device::lemma_id_lookup_props;
use crate::decode::opt_text;

/// A message from the scan coordinator: a complete snapshot batch, or a
/// human-readable status update. Exactly one variant per message.
#[derive(Debug)]
pub enum ScanMessage {
    Devices(Vec<DeviceInfo>),
    Status(String),
}

/// Non-decreasing in the display order.
pub open spec fn sorted_devices(s: Seq<DeviceInfo>) -> bool {
    forall|i: int, j: int| 0 <= i < j < s.len() ==> dev_le(s[i], s[j])
}

/// The index in [0, i) before which every entry precedes entry i, and
/// which entry i strictly precedes, in the display order.
fn insertion_point(v: &Vec<DeviceInfo>, i: usize) -> (j: usize)
    requires
        i < v@.len(),
    ensures
        j <= i,
        forall|k: int| 0 <= k < j ==> dev_le(v@[k], v@[i as int]),
        j < i ==> !dev_le(v@[j as int], v@[i as int]),
{
    let mut j: usize = 0;
    while j < i
        invariant
            j <= i,
            i < v@.len(),
            forall|k: int| 0 <= k < j ==> dev_le(v@[k], v@[i as int]),
        decreases i - j,
    {
        if !dev_le_exec(&v[j], &v[i]) {
            return j;
        }
        j += 1;
    }
    j
}

/// Sorts a snapshot batch by the display order, keeping exactly the
/// given entries.
pub fn sort_devices(v: &mut Vec<DeviceInfo>)
    ensures
        sorted_devices(final(v)@),
        final(v)@.to_multiset() == old(v)@.to_multiset(),
{
    let n = v.len();
    if n <= 1 {
        return;
    }
    let mut i: usize = 1;
    while i < n
        invariant
            n == v@.len(),
            1 <= i <= n,
            sorted_devices(v@.take(i as int)),
            v@.to_multiset() == old(v)@.to_multiset(),
        decreases n - i,
    {
        let j = insertion_point(v, i);
        let ghost s = v@;
        let x = v.remove(i);
        v.insert(j, x);
        proof {
            assert(v@ == s.remove(i as int).insert(j as int, x));
            assert(v@.to_multiset() =~= s.to_multiset());
            assert forall|a2: int, b2: int| 0 <= a2 < b2 < i implies dev_le(s[a2], s[b2]) by {
                assert(s.take(i as int)[a2] == s[a2]);
                assert(s.take(i as int)[b2] == s[b2]);
                assert(dev_le(s.take(i as int)[a2], s.take(i as int)[b2]));
            }
            if j < i {
                lemma_dev_le_total(s[j as int], x);
                assert forall|k: int| j <= k < i implies dev_le(x, s[k]) by {
                    if k > j {
                        assert(dev_le(s[j as int], s[k]));
                        lemma_dev_le_transitive(x, s[j as int], s[k]);
                    }
                }
            }
            assert forall|a: int, b: int| 0 <= a < b <= i implies dev_le(v@[a], v@[b]) by {
                assert(forall|k: int|
                    0 <= k <= i ==> v@[k] == (if k < j {
                        s[k]
                    } else if k == j {
                        x
                    } else {
                        s[k - 1]
                    }));
            }
            assert(sorted_devices(v@.take(i as int + 1)));
        }
        i += 1;
    }
    proof {
        assert(v@.take(n as int) =~= v@);
    }
}

/// What identity the selection should follow into the next snapshot:
/// the explicitly remembered id if set, else the id of the device
/// currently selected by index.
pub open spec fn anchor_id(st: AppState) -> Option<Seq<char>> {
    match st.selected_id {
        Some(id) => Some(id@),
        None => match st.selected {
            Some(i) => if i < st.devices@.len() {
                Some(st.devices@[i as int].id@)
            } else {
                None
            },
            None => None,
        },
    }
}

/// Where the selection lands after a snapshot replaces the list: the
/// anchor's new index when the anchor survives, else the top of a
/// non-empty list, else nowhere.
pub open spec fn reconciled_selection(anchor: Option<Seq<char>>, devs: Seq<DeviceInfo>) -> Option<
    int,
> {
    match anchor {
        Some(aid) => match id_lookup(devs, aid) {
            Some(i) => Some(i),
            None => if devs.len() == 0 {
                None
            } else {
                Some(0int)
            },
        },
        None => if devs.len() == 0 {
            None
        } else {
            Some(0int)
        },
    }
}

/// Law: selection identity persists. If the anchor id is present in the
/// new snapshot, reconciliation selects its (first) new index, wherever
/// the other entries moved.
pub proof fn lemma_selection_identity_persistence(anchor: Seq<char>, devs: Seq<DeviceInfo>)
    requires
        exists|i: int| 0 <= i < devs.len() && devs[i].id@ == anchor,
    ensures
        ({
            let r = reconciled_selection(Some(anchor), devs);
            &&& r is Some
            &&& 0 <= r->Some_0 < devs.len()
            &&& devs[r->Some_0].id@ == anchor
            &&& forall|j: int| 0 <= j < r->Some_0 ==> devs[j].id@ != anchor
        }),
{
    lemma_id_lookup_props(devs, anchor);
}

/// Law: selection falls back. If no entry carries the anchor id (or no
/// anchor exists), reconciliation selects the top of a non-empty list
/// and nothing on an empty one.
pub proof fn lemma_selection_fallback(anchor: Option<Seq<char>>, devs: Seq<DeviceInfo>)
    requires
        match anchor {
            Some(aid) => forall|i: int| 0 <= i < devs.len() ==> devs[i].id@ != aid,
            None => true,
        },
    ensures
        reconciled_selection(anchor, devs) == if devs.len() == 0 {
            Option::<int>::None
        } else {
            Some(0int)
        },
{
    if let Some(aid) = anchor {
        lemma_id_lookup_props(devs, aid);
        if let Some(i) = id_lookup(devs, aid) {
            assert(devs[i].id@ == aid);
            assert(false);
        }
    }
}

/// The dashboard's state: the current sorted device list, a status
/// line, and the selection both as an index and as a remembered id.
pub struct AppState {
    pub devices: Vec<DeviceInfo>,
    pub status: String,
    pub selected: Option<usize>,
    pub selected_id: Option<String>,
}

impl AppState {
    /// On a non-empty list exactly one in-range index is selected and
    /// the remembered id is that entry's; on an empty list neither is
    /// set.
    pub open spec fn wf(self) -> bool {
        if self.devices@.len() == 0 {
            self.selected is None && self.selected_id is None
        } else {
            match (self.selected, self.selected_id) {
                (Some(i), Some(id)) => i < self.devices@.len() && id@ == self.devices@[
                    i as int
                ].id@,
                _ => false,
            }
        }
    }

    /// The state at startup: no devices, no selection, a starting
    /// status line.
    pub fn new() -> (r: AppState)
        ensures
            r.wf(),
            r.devices@.len() == 0,
            r.status@ == "Starting scan..."@,
            r.selected is None,
            r.selected_id is None,
    {
        AppState {
            devices: Vec::new(),
            status: "Starting scan...".to_owned(),
            selected: None,
            selected_id: None,
        }
    }

    /// Consumes one coordinator message. A snapshot batch replaces the
    /// device list whole — sorted by the display order — and the
    /// selection follows the anchor id, falls back to the top of a
    /// non-empty list, and clears on an empty one; a status update
    /// touches nothing else.
    pub fn apply(&mut self, msg: ScanMessage)
        requires
            old(self).wf(),
        ensures
            final(self).wf(),
            match msg {
                ScanMessage::Devices(list) => {
                    &&& final(self).devices@.to_multiset() == list@.to_multiset()
                    &&& sorted_devices(final(self).devices@)
                    &&& final(self).status@ == "Scanning..."@
                    &&& match reconciled_selection(anchor_id(*old(self)), final(self).devices@) {
                        Some(i) => final(self).selected == Some(i as usize),
                        None => final(self).selected is None,
                    }
                },
                ScanMessage::Status(s) => {
                    &&& final(self).status@ == s@
                    &&& final(self).devices == old(self).devices
                    &&& final(self).selected == old(self).selected
                    &&& final(self).selected_id == old(self).selected_id
                },
            },
    {
        match msg {
            ScanMessage::Devices(mut devices) => {
                sort_devices(&mut devices);
                let anchor: Option<String> = match &self.selected_id {
                    Some(id) => Some(id.clone()),
                    None => match self.selected {
                        Some(i) => if i < self.devices.len() {
                            Some(self.devices[i].id.clone())
                        } else {
                            None
                        },
                        None => None,
                    },
                };
                proof {
                    assert(opt_text(anchor) == anchor_id(*old(self)));
                }
                self.devices = devices;
                let sel: Option<usize> = match &anchor {
                    Some(aid) => {
                        match find_device_index(&self.devices, aid) {
                            Some(i) => {
                                proof {
                                    lemma_id_lookup_props(self.devices@, aid@);
                                }
                                Some(i)
                            },
                            None => if self.devices.len() == 0 {
                                None
                            } else {
                                Some(0usize)
                            },
                        }
                    },
                    None => if self.devices.len() == 0 {
                        None
                    } else {
                        Some(0usize)
                    },
                };
                self.selected = sel;
                self.selected_id = match sel {
                    Some(i) => {
                        proof {
                            if let Some(aid) = anchor {
                                lemma_id_lookup_props(self.devices@, aid@);
                            }
                        }
                        Some(self.devices[i].id.clone())
                    },
                    None => None,
                };
                self.status = "Scanning...".to_owned();
            },
            ScanMessage::Status(status) => {
                self.status = status;
            },
        }
    }

    /// The entry the selection points at, if any.
    pub fn selected_device(&self) -> (r: Option<&DeviceInfo>)
        ensures
            match r {
                Some(d) => self.selected matches Some(i) && i < self.devices@.len() && *d
                    == self.devices@[self.selected->Some_0 as int],
                None => self.selected is None || self.selected->Some_0 >= self.devices@.len(),
            },
    {
        match self.selected {
            Some(i) => if i < self.devices.len() {
                Some(&self.devices[i])
            } else {
                None
            },
            None => None,
        }
    }

    /// Moves the selection one step down, wrapping from the last entry
    /// to the first; on an empty list it clears the selection.
    pub fn select_next(&mut self)
        requires
            old(self).wf(),
        ensures
            final(self).wf(),
            final(self).devices == old(self).devices,
            final(self).status == old(self).status,
            ({
                let n = old(self).devices@.len() as int;
                if n == 0 {
                    final(self).selected is None && final(self).selected_id is None
                } else {
                    final(self).selected == Some(
                        (if old(self).selected->Some_0 + 1 == n {
                            0int
                        } else {
                            old(self).selected->Some_0 + 1
                        }) as usize,
                    )
                }
            }),
    {
        if self.devices.len() == 0 {
            self.selected = None;
            self.selected_id = None;
            return;
        }
        let n = self.devices.len();
        let next: usize = match self.selected {
            Some(i) => if i + 1 < n {
                i + 1
            } else {
                0
            },
            None => 0,
        };
        self.selected = Some(next);
        self.selected_id = Some(self.devices[next].id.clone());
    }

    /// Moves the selection one step up, wrapping from the first entry
    /// to the last; on an empty list it clears the selection.
    pub fn select_previous(&mut self)
        requires
            old(self).wf(),
        ensures
            final(self).wf(),
            final(self).devices == old(self).devices,
            final(self).status == old(self).status,
            ({
                let n = old(self).devices@.len() as int;
                if n == 0 {
                    final(self).selected is None && final(self).selected_id is None
                } else {
                    final(self).selected == Some(
                        (if old(self).selected->Some_0 == 0 {
                            n - 1
                        } else {
                            old(self).selected->Some_0 - 1
                        }) as usize,
                    )
                }
            }),
    {
        if self.devices.len() == 0 {
            self.selected = None;
            self.selected_id = None;
            return;
        }
        let n = self.devices.len();
        let next: usize = match self.selected {
            Some(i) => if i > 0 {
                i - 1
            } else {
                n - 1
            },
            None => n - 1,
        };
        self.selected = Some(next);
        self.selected_id = Some(self.devices[next].id.clone());
    }
}

} // verus!
