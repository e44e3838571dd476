//! Capture devices and how one is found among those enumerated.

use vstd::prelude::*;
use vstd::std_specs::cmp::PartialEqSpecImpl;

verus! {

/// One capture device, as enumeration reports it. Two devices are the same
/// device when their `id`s agree; `name` is for people.
#[derive(Debug, Eq)]
pub struct CameraDevice {
    /// Stable identifier.
    pub id: String,
    /// Human-readable name.
    pub name: String,
}

impl PartialEq for CameraDevice {
    fn eq(&self, other: &Self) -> (res: bool) {
        self.id == other.id && self.name == other.name
    }
}

impl PartialEqSpecImpl for CameraDevice {
    open spec fn obeys_eq_spec() -> bool {
        true
    }

    open spec fn eq_spec(&self, other: &Self) -> bool {
        self.id@ == other.id@ && self.name@ == other.name@
    }
}

impl Clone for CameraDevice {
    fn clone(&self) -> (res: Self)
        ensures
            res == *self,
    {
        CameraDevice { id: self.id.clone(), name: self.name.clone() }
    }
}

impl CameraDevice {
    /// The device that a backend node stands for: a node without a name is
    /// called by its id.
    pub fn from_node(id: String, name: Option<String>) -> (res: CameraDevice)
        ensures
            res.id == id,
            res.name == (match name {
                Some(n) => n,
                None => id,
            }),
    {
        let name = match name {
            Some(n) => n,
            None => id.clone(),
        };
        CameraDevice { id, name }
    }

    /// Whether `self` and `other` are the same device.
    pub fn same_device(&self, other: &CameraDevice) -> (res: bool)
        ensures
            res == (self.id@ == other.id@),
    {
        self.id == other.id
    }
}

/// The position of the first device with the given id, if there is one.
pub open spec fn position_of(devices: Seq<CameraDevice>, id: Seq<char>) -> Option<int>
    decreases devices.len(),
{
    if devices.len() == 0 {
        None
    } else if devices[0].id@ == id {
        Some(0)
    } else {
        match position_of(devices.drop_first(), id) {
            Some(i) => Some(i + 1),
            None => None,
        }
    }
}

/// `position_of` finds a device with the id, and the first such.
pub proof fn lemma_position_of(devices: Seq<CameraDevice>, id: Seq<char>)
    ensures
        match position_of(devices, id) {
            Some(i) => 0 <= i < devices.len() && devices[i].id@ == id && forall|j: int|
                0 <= j < i ==> devices[j].id@ != id,
            None => forall|j: int| 0 <= j < devices.len() ==> devices[j].id@ != id,
        },
    decreases devices.len(),
{
    if devices.len() > 0 && devices[0].id@ != id {
        let rest = devices.drop_first();
        lemma_position_of(rest, id);
        match position_of(rest, id) {
            Some(i) => {
                assert forall|j: int| 0 <= j < i + 1 implies devices[j].id@ != id by {
                    if j > 0 {
                        assert(devices[j] == rest[j - 1]);
                    }
                }
            },
            None => {
                assert forall|j: int| 0 <= j < devices.len() implies devices[j].id@ != id by {
                    if j > 0 {
                        assert(devices[j] == rest[j - 1]);
                    }
                }
            },
        }
    }
}

/// Looks a device up by id among the enumerated ones and gives the index of
/// the first match.
pub fn find_device(devices: &Vec<CameraDevice>, target: &CameraDevice) -> (res: Option<usize>)
    ensures
        match res {
            Some(i) => {
                &&& i < devices@.len()
                &&& devices@[i as int].id@ == target.id@
                &&& forall|j: int| 0 <= j < i ==> devices@[j].id@ != target.id@
                &&& position_of(devices@, target.id@) == Some(i as int)
            },
            None => {
                &&& forall|j: int| 0 <= j < devices@.len() ==> devices@[j].id@ != target.id@
                &&& position_of(devices@, target.id@) is None
            },
        },
{
    let mut index: usize = 0;
    while index < devices.len()
        invariant
            index <= devices.len(),
            forall|j: int| 0 <= j < index ==> devices@[j].id@ != target.id@,
        decreases devices.len() - index,
    {
        if devices[index].same_device(target) {
            proof {
                lemma_position_of(devices@, target.id@);
            }
            return Some(index);
        }
        index += 1;
    }
    proof {
        lemma_position_of(devices@, target.id@);
    }
    None
}

} // verus!
