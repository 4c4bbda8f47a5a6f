//! The device model: one snapshot entry per peripheral, the total order
//! the dashboard sorts by, and identity lookup within a snapshot.

use vstd::prelude::*;

verus! {

use std::collections::BTreeMap;
use crate::text::lex_le;
use crate::text::str_lex_le;
use crate::text::lemma_lex_le_total;
use crate::text::lemma_lex_le_antisymmetric;
use crate::text::lemma_lex_le_transitive;

/// The kind of address a peripheral advertises under.
#[derive(Clone, Copy, Debug, PartialEq, Eq, Structural)]
pub enum AddressKind {
    Public,
    Random,
}

/// One discovered peripheral as reported by a single poll cycle. A batch
/// of these replaces the previous batch whole; entries are never merged
/// field by field.
#[derive(Clone, Debug)]
pub struct DeviceInfo {
    pub id: String,
    pub name: String,
    pub rssi: Option<i16>,
    pub connected: bool,
    pub tx_power_level: Option<i16>,
    pub address_type: Option<AddressKind>,
    pub manufacturer_data: BTreeMap<u16, Vec<u8>>,
    pub service_data: BTreeMap<String, Vec<u8>>,
    pub services: Vec<String>,
}

/// The display order: primary key the name, secondary key the id, both
/// by code point; not antisymmetric on whole devices, since two entries
/// may share name and id while differing elsewhere.
pub open spec fn dev_le(a: DeviceInfo, b: DeviceInfo) -> bool {
    if a.name@ == b.name@ {
        lex_le(a.id@, b.id@)
    } else {
        lex_le(a.name@, b.name@)
    }
}

/// Any two devices are comparable.
pub proof fn lemma_dev_le_total(a: DeviceInfo, b: DeviceInfo)
    ensures
        dev_le(a, b) || dev_le(b, a),
{
    if a.name@ == b.name@ {
        lemma_lex_le_total(a.id@, b.id@);
    } else {
        lemma_lex_le_total(a.name@, b.name@);
    }
}

/// The display order is transitive.
pub proof fn lemma_dev_le_transitive(a: DeviceInfo, b: DeviceInfo, c: DeviceInfo)
    requires
        dev_le(a, b),
        dev_le(b, c),
    ensures
        dev_le(a, c),
{
    if a.name@ == b.name@ && b.name@ == c.name@ {
        lemma_lex_le_transitive(a.id@, b.id@, c.id@);
    } else if a.name@ == b.name@ {
        // a and b share a name, so a orders against c as b does.
    } else if b.name@ == c.name@ {
        // likewise with b and c.
    } else {
        lemma_lex_le_transitive(a.name@, b.name@, c.name@);
        if a.name@ == c.name@ {
            lemma_lex_le_antisymmetric(b.name@, c.name@);
        }
    }
}

/// Decides the display order on two devices.
pub fn dev_le_exec(a: &DeviceInfo, b: &DeviceInfo) -> (r: bool)
    ensures
        r == dev_le(*a, *b),
{
    if a.name == b.name {
        str_lex_le(a.id.as_str(), b.id.as_str())
    } else {
        str_lex_le(a.name.as_str(), b.name.as_str())
    }
}

/// The index of the first entry carrying the given id, if any.
pub open spec fn id_lookup(s: Seq<DeviceInfo>, id: Seq<char>) -> Option<int>
    decreases s.len(),
{
    if s.len() == 0 {
        None
    } else if s[0].id@ == id {
        Some(0int)
    } else {
        match id_lookup(s.drop_first(), id) {
            Some(i) => Some(i + 1),
            None => None,
        }
    }
}

/// What `id_lookup` returns: the first matching index, or a guarantee
/// that no entry matches.
pub proof fn lemma_id_lookup_props(s: Seq<DeviceInfo>, id: Seq<char>)
    ensures
        match id_lookup(s, id) {
            Some(i) => 0 <= i < s.len() && s[i].id@ == id && forall|j: int|
                0 <= j < i ==> s[j].id@ != id,
            None => forall|j: int| 0 <= j < s.len() ==> s[j].id@ != id,
        },
    decreases s.len(),
{
    if s.len() != 0 && s[0].id@ != id {
        lemma_id_lookup_props(s.drop_first(), id);
        match id_lookup(s.drop_first(), id) {
            Some(i) => {
                assert(s.drop_first()[i] == s[i + 1]);
                assert forall|j: int| 0 <= j < i + 1 implies s[j].id@ != id by {
                    if j > 0 {
                        assert(s[j] == s.drop_first()[j - 1]);
                    }
                }
            },
            None => {
                assert forall|j: int| 0 <= j < s.len() implies s[j].id@ != id by {
                    if j > 0 {
                        assert(s[j] == s.drop_first()[j - 1]);
                    }
                }
            },
        }
    }
}

/// A first matching index determines `id_lookup`.
proof fn lemma_id_lookup_exact(s: Seq<DeviceInfo>, id: Seq<char>, i: int)
    requires
        0 <= i < s.len(),
        s[i].id@ == id,
        forall|j: int| 0 <= j < i ==> s[j].id@ != id,
    ensures
        id_lookup(s, id) == Some(i),
    decreases s.len(),
{
    if i != 0 {
        assert(s[0].id@ != id);
        assert(s.drop_first()[i - 1] == s[i]);
        assert forall|j: int| 0 <= j < i - 1 implies s.drop_first()[j].id@ != id by {
            assert(s.drop_first()[j] == s[j + 1]);
        }
        lemma_id_lookup_exact(s.drop_first(), id, i - 1);
    }
}

/// No matching entry leaves `id_lookup` empty.
proof fn lemma_id_lookup_none(s: Seq<DeviceInfo>, id: Seq<char>)
    requires
        forall|j: int| 0 <= j < s.len() ==> s[j].id@ != id,
    ensures
        id_lookup(s, id) is None,
    decreases s.len(),
{
    if s.len() != 0 {
        assert forall|j: int| 0 <= j < s.drop_first().len() implies s.drop_first()[j].id@ != id by {
            assert(s.drop_first()[j] == s[j + 1]);
        }
        lemma_id_lookup_none(s.drop_first(), id);
    }
}

/// Finds the first entry carrying the given id.
pub fn find_device_index(devices: &Vec<DeviceInfo>, id: &String) -> (r: Option<usize>)
    ensures
        match r {
            Some(i) => id_lookup(devices@, id@) == Some(i as int),
            None => id_lookup(devices@, id@) is None,
        },
{
    let n = devices.len();
    let mut i: usize = 0;
    while i < n
        invariant
            n == devices@.len(),
            i <= n,
            forall|j: int| 0 <= j < i ==> devices@[j].id@ != id@,
        decreases n - i,
    {
        if devices[i].id == *id {
            proof {
                lemma_id_lookup_exact(devices@, id@, i as int);
            }
            return Some(i);
        }
        i += 1;
    }
    proof {
        lemma_id_lookup_none(devices@, id@);
    }
    None
}

} // verus!
