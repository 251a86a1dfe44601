//! Interface directory: plain descriptions of capture-capable network
//! interfaces, and the mapping of an interface query's outcome onto the
//! directory's result type.

use vstd::prelude::*;

verus! {

/// Link status of an interface as the OS reports it.
#[derive(Clone, Copy, PartialEq, Eq, Structural, Debug)]
pub enum ConnectionStatus {
    Connected,
    Disconnected,
    Unknown,
}

/// Capability and status flags of one interface.
#[derive(Clone, Copy, PartialEq, Eq, Structural, Debug)]
pub struct DeviceFlags {
    pub loopback: bool,
    pub up: bool,
    pub running: bool,
    pub wireless: bool,
    pub connected: ConnectionStatus,
}

/// One address bound to an interface; every field may be absent for a
/// given address family.
#[derive(Clone, Debug)]
pub struct AddressInfo {
    pub address: Option<String>,
    pub netmask: Option<String>,
    pub broadcast: Option<String>,
    pub point_to_point_dest: Option<String>,
}

/// One discoverable network interface: its stable OS name, an optional
/// human-readable label, its addresses in OS order, and its flags.
#[derive(Clone, Debug)]
pub struct InterfaceDescriptor {
    pub name: String,
    pub description: Option<String>,
    pub addresses: Vec<AddressInfo>,
    pub flags: DeviceFlags,
}

/// Why an interface query produced no list.
#[derive(Clone, PartialEq, Eq, Debug)]
pub enum DirectoryError {
    QueryFailed(String),
}

/// The names of the listed interfaces, in order.
pub open spec fn device_names(devs: Seq<InterfaceDescriptor>) -> Seq<Seq<char>> {
    devs.map(|i: int, d: InterfaceDescriptor| d.name@)
}

/// Whether some listed name equals `n`.
pub open spec fn names_contain(names: Seq<Seq<char>>, n: Seq<char>) -> bool {
    exists|i: int| 0 <= i < names.len() && names[i] == n
}

/// Turns the outcome of one OS interface query into the directory's
/// result: the full list in OS order on success (an empty list is a valid
/// answer, not an error), `QueryFailed` carrying the OS reason otherwise.
pub fn list_interfaces(query: Result<Vec<InterfaceDescriptor>, String>) -> (r: Result<
    Vec<InterfaceDescriptor>,
    DirectoryError,
>)
    ensures
        r is Ok <==> query is Ok,
        query matches Ok(v) ==> r matches Ok(w) && w == v,
        query matches Err(e) ==> r matches Err(d) && d == DirectoryError::QueryFailed(e),
{
    match query {
        Ok(v) => Ok(v),
        Err(e) => Err(DirectoryError::QueryFailed(e)),
    }
}

/// Finds the position of the interface named `name`, scanning in list
/// order; `None` exactly when no listed interface bears that name.
pub fn find_device(devices: &Vec<InterfaceDescriptor>, name: &String) -> (r: Option<usize>)
    ensures
        match r {
            Some(i) => i < devices@.len() && devices@[i as int].name@ == name@,
            None => !names_contain(device_names(devices@), name@),
        },
{
    let n = devices.len();
    let mut i: usize = 0;
    while i < n
        invariant
            i <= n == devices@.len(),
            forall|j: int| 0 <= j < i ==> devices@[j].name@ != name@,
        decreases n - i,
    {
        if devices[i].name == *name {
            return Some(i);
        }
        i += 1;
    }
    proof {
        assert forall|j: int| 0 <= j < device_names(devices@).len() implies device_names(devices@)[j]
            != name@ by {
            assert(device_names(devices@)[j] == devices@[j].name@);
        }
    }
    None
}

} // verus!
