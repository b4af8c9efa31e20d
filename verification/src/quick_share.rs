use vstd::prelude::*;

use crate::settings::opt_view;
use crate::text::{chars_of, decimal, push_decimal};

verus! {

/// The order of `String`: code points compared one by one, a proper prefix
/// first. (UTF-8 keeps this order, so it is also the order of the bytes.)
pub open spec fn id_before(a: Seq<char>, b: Seq<char>) -> bool
    decreases a.len(),
{
    if a.len() == 0 {
        b.len() > 0
    } else if b.len() == 0 {
        false
    } else if a[0] != b[0] {
        a[0] < b[0]
    } else {
        id_before(a.drop_first(), b.drop_first())
    }
}

pub proof fn lemma_id_before_irreflexive(a: Seq<char>)
    ensures
        !id_before(a, a),
    decreases a.len(),
{
    if a.len() > 0 {
        lemma_id_before_irreflexive(a.drop_first());
    }
}

pub proof fn lemma_id_before_transitive(a: Seq<char>, b: Seq<char>, c: Seq<char>)
    requires
        id_before(a, b),
        id_before(b, c),
    ensures
        id_before(a, c),
    decreases a.len(),
{
    if a.len() > 0 && b.len() > 0 && c.len() > 0 {
        if a[0] == b[0] && b[0] == c[0] {
            lemma_id_before_transitive(a.drop_first(), b.drop_first(), c.drop_first());
        }
    }
}

pub proof fn lemma_id_before_total(a: Seq<char>, b: Seq<char>)
    requires
        a != b,
    ensures
        id_before(a, b) || id_before(b, a),
    decreases a.len(),
{
    if a.len() > 0 && b.len() > 0 && a[0] == b[0] {
        if a.drop_first() == b.drop_first() {
            assert(a =~= seq![a[0]] + a.drop_first());
            assert(b =~= seq![b[0]] + b.drop_first());
        }
        lemma_id_before_total(a.drop_first(), b.drop_first());
    } else if a.len() == 0 && b.len() == 0 {
        assert(a =~= b);
    }
}

/// Where one ID stands relative to another.
#[derive(Clone, Copy, Debug, PartialEq, Eq, Structural)]
pub enum IdOrder {
    Before,
    Same,
    After,
}

/// Compares two IDs in the order of `String`.
pub fn order_ids(a: &Vec<char>, b: &Vec<char>) -> (order: IdOrder)
    ensures
        order == IdOrder::Before <==> id_before(a@, b@),
        order == IdOrder::Same <==> a@ == b@,
        order == IdOrder::After <==> id_before(b@, a@),
{
    let mut i: usize = 0;
    assert(a@.skip(0) =~= a@);
    assert(b@.skip(0) =~= b@);
    while i < a.len() && i < b.len() && a[i] == b[i]
        invariant
            i <= a.len(),
            i <= b.len(),
            a@.take(i as int) == b@.take(i as int),
            id_before(a@, b@) == id_before(a@.skip(i as int), b@.skip(i as int)),
            id_before(b@, a@) == id_before(b@.skip(i as int), a@.skip(i as int)),
        decreases a.len() - i,
    {
        assert(a@.skip(i as int).drop_first() =~= a@.skip(i + 1));
        assert(b@.skip(i as int).drop_first() =~= b@.skip(i + 1));
        assert(a@.take(i + 1) =~= a@.take(i as int).push(a@[i as int]));
        assert(b@.take(i + 1) =~= b@.take(i as int).push(b@[i as int]));
        i += 1;
    }
    proof {
        lemma_id_before_irreflexive(a@);
    }
    if i == a.len() && i == b.len() {
        assert(a@ =~= a@.take(i as int));
        assert(b@ =~= b@.take(i as int));
        IdOrder::Same
    } else if i == a.len() {
        assert(a@.skip(i as int).len() == 0);
        assert(a@ != b@);
        IdOrder::Before
    } else if i == b.len() {
        assert(b@.skip(i as int).len() == 0);
        assert(a@ != b@);
        IdOrder::After
    } else {
        assert(a@.skip(i as int)[0] == a@[i as int]);
        assert(b@.skip(i as int)[0] == b@[i as int]);
        assert(a@[i as int] != b@[i as int]);
        assert(a@ != b@);
        if a[i] < b[i] {
            IdOrder::Before
        } else {
            IdOrder::After
        }
    }
}


/// A Quick Share device found nearby.
#[derive(Clone, Debug)]
pub struct Device {
    pub id: String,
    pub name: String,
    pub device_type: String,
    pub address: String,
}

/// A discovery report about an endpoint, as plain values.
pub struct Endpoint {
    pub id: String,
    pub name: Option<String>,
    pub ip: Option<String>,
    pub port: Option<String>,
    /// The name of the endpoint's device type, as `Debug` writes it.
    pub device_type: Option<String>,
    /// Whether the endpoint is (still) present.
    pub present: Option<bool>,
}

/// The text that `str::to_lowercase` makes of `s`.
pub uninterp spec fn lowercase(s: Seq<char>) -> Seq<char>;

/// Calls `str::to_lowercase`. Claimed: the result is a function of the text
/// alone (named `lowercase`); the Unicode case mapping itself is left unsaid.
#[verifier::external_body]
fn to_lowercase(s: &str) -> (lower: String)
    ensures
        lower@ == lowercase(s@),
{
    s.to_lowercase()
}

/// The name shown for an endpoint: its own, unless that is missing or empty.
pub open spec fn spec_device_name(name: Option<String>) -> Seq<char> {
    match name {
        Some(n) => if n@.len() > 0 {
            n@
        } else {
            "Unknown device"@
        },
        None => "Unknown device"@,
    }
}

/// A device's name is never empty: it is the endpoint's own name when that is
/// non-empty, and `Unknown device` when the name is missing or empty.
pub proof fn lemma_device_name_never_empty(name: Option<String>)
    ensures
        spec_device_name(name).len() > 0,
        (name matches Some(n) && n@.len() > 0) ==> spec_device_name(name) == name->0@,
        !(name matches Some(n) && n@.len() > 0) ==> spec_device_name(name) == "Unknown device"@,
{
    reveal_strlit("Unknown device");
}

/// The device type shown for an endpoint.
pub open spec fn spec_device_type(device_type: Option<String>) -> Seq<char> {
    match device_type {
        Some(t) => lowercase(t@),
        None => "unknown"@,
    }
}

/// The device that an endpoint report describes; none when its address is
/// incomplete.
pub fn endpoint_to_device(endpoint: Endpoint) -> (device: Option<Device>)
    ensures
        device is Some <==> (endpoint.ip is Some && endpoint.port is Some),
        device matches Some(d) ==> {
            &&& d.id == endpoint.id
            &&& d.address@ == endpoint.ip->0@ + ":"@ + endpoint.port->0@
            &&& d.name@ == spec_device_name(endpoint.name)
            &&& d.device_type@ == spec_device_type(endpoint.device_type)
        },
{
    let ghost e = endpoint;
    let ip = match endpoint.ip {
        Some(ip) => ip,
        None => {
            return None;
        },
    };
    let port = match endpoint.port {
        Some(port) => port,
        None => {
            return None;
        },
    };
    let mut address = ip;
    address.append(":");
    address.append(port.as_str());
    let name = match endpoint.name {
        Some(n) => if n.as_str().is_empty() {
            "Unknown device".to_owned()
        } else {
            n
        },
        None => "Unknown device".to_owned(),
    };
    let device_type = match &endpoint.device_type {
        Some(t) => to_lowercase(t.as_str()),
        None => "unknown".to_owned(),
    };
    Some(Device { id: endpoint.id, name, device_type, address })
}

/// The devices are in strictly ascending order of ID.
pub open spec fn sorted_by_id(devices: Seq<Device>) -> bool {
    forall|i: int, j: int|
        0 <= i < j < devices.len() ==> id_before(#[trigger] devices[i].id@, #[trigger] devices[j].id@)
}

/// Some device has the ID `id`.
pub open spec fn has_id(devices: Seq<Device>, id: Seq<char>) -> bool {
    exists|i: int| 0 <= i < devices.len() && #[trigger] devices[i].id@ == id
}

/// The devices by ID.
pub open spec fn devices_by_id(devices: Seq<Device>) -> Map<Seq<char>, Device> {
    Map::new(|id: Seq<char>| has_id(devices, id), |id: Seq<char>| devices[index_of_id(devices, id)])
}

/// A position of a device with the ID `id`, if there is one.
pub open spec fn index_of_id(devices: Seq<Device>, id: Seq<char>) -> int {
    choose|i: int| 0 <= i < devices.len() && #[trigger] devices[i].id@ == id
}

proof fn lemma_sorted_unique(devices: Seq<Device>, i: int, j: int)
    requires
        sorted_by_id(devices),
        0 <= i < devices.len(),
        0 <= j < devices.len(),
        devices[i].id@ == devices[j].id@,
    ensures
        i == j,
{
    if i < j {
        lemma_id_before_irreflexive(devices[i].id@);
        assert(id_before(devices[i].id@, devices[j].id@));
    } else if j < i {
        lemma_id_before_irreflexive(devices[i].id@);
        assert(id_before(devices[j].id@, devices[i].id@));
    }
}

proof fn lemma_lookup(devices: Seq<Device>, i: int)
    requires
        sorted_by_id(devices),
        0 <= i < devices.len(),
    ensures
        devices_by_id(devices).dom().contains(devices[i].id@),
        devices_by_id(devices)[devices[i].id@] == devices[i],
{
    let id = devices[i].id@;
    assert(has_id(devices, id));
    let k = index_of_id(devices, id);
    lemma_sorted_unique(devices, i, k);
}

/// Whether `device` comes before the ID `id`.
fn id_is_before(device: &Device, id: &Vec<char>) -> (before: bool)
    ensures
        before == id_before(device.id@, id@),
{
    let other = chars_of(device.id.as_str());
    order_ids(&other, id) == IdOrder::Before
}

/// The devices seen during discovery, by ID, kept in ascending order of ID.
pub struct DeviceTable {
    devices: Vec<Device>,
}

impl View for DeviceTable {
    type V = Map<Seq<char>, Device>;

    closed spec fn view(&self) -> Map<Seq<char>, Device> {
        devices_by_id(self.devices@)
    }
}

impl DeviceTable {
    /// The table is kept in ascending order of ID.
    #[verifier::type_invariant]
    spec fn well_formed(self) -> bool {
        sorted_by_id(self.devices@)
    }

    /// An empty table.
    pub fn new() -> (table: DeviceTable)
        ensures
            table@ == Map::<Seq<char>, Device>::empty(),
    {
        let table = DeviceTable { devices: Vec::new() };
        assert(table@ =~= Map::<Seq<char>, Device>::empty());
        table
    }

    /// Records `device`, replacing any device with the same ID.
    pub fn insert(&mut self, device: Device)
        ensures
            final(self)@ == old(self)@.insert(device.id@, device),
    {
        proof {
            use_type_invariant(&*self);
        }
        let mut devices: Vec<Device> = Vec::new();
        std::mem::swap(&mut devices, &mut self.devices);
        let ghost old_devices = devices@;
        let ghost key = device.id@;
        let id = chars_of(device.id.as_str());
        let mut p: usize = 0;
        while p < devices.len() && id_is_before(&devices[p], &id)
            invariant
                p <= devices.len(),
                devices@ == old_devices,
                sorted_by_id(old_devices),
                id@ == key,
                forall|j: int| 0 <= j < p ==> id_before(#[trigger] old_devices[j].id@, key),
            decreases devices.len() - p,
        {
            p += 1;
        }
        let order = if p < devices.len() {
            let other = chars_of(devices[p].id.as_str());
            order_ids(&other, &id)
        } else {
            IdOrder::After
        };
        if p < devices.len() && order == IdOrder::Same {
            assert(old_devices[p as int].id@ == key);
            devices.set(p, device);
            let ghost new_devices = devices@;
            assert(sorted_by_id(new_devices)) by {
                assert forall|i: int, j: int| 0 <= i < j < new_devices.len() implies id_before(
                    #[trigger] new_devices[i].id@,
                    #[trigger] new_devices[j].id@,
                ) by {
                    assert(old_devices[i].id@ == new_devices[i].id@ || i == p);
                    assert(old_devices[j].id@ == new_devices[j].id@ || j == p);
                    assert(id_before(old_devices[i].id@, old_devices[j].id@));
                }
            }
            proof {
                Self::lemma_replace_view(old_devices, new_devices, p as int);
            }
        } else {
            if p < devices.len() {
                assert forall|j: int| p <= j < old_devices.len() implies id_before(
                    key,
                    #[trigger] old_devices[j].id@,
                ) by {
                    if j > p {
                        lemma_id_before_transitive(key, old_devices[p as int].id@, old_devices[j].id@);
                    }
                }
            }
            devices.insert(p, device);
            let ghost new_devices = devices@;
            assert(sorted_by_id(new_devices)) by {
                assert forall|i: int, j: int| 0 <= i < j < new_devices.len() implies id_before(
                    #[trigger] new_devices[i].id@,
                    #[trigger] new_devices[j].id@,
                ) by {
                    if i < p && j < p {
                    } else if i < p && j == p {
                    } else if i < p {
                        assert(new_devices[j] == old_devices[j - 1]);
                        lemma_id_before_transitive(old_devices[i].id@, key, old_devices[j - 1].id@);
                    } else if i == p {
                        assert(new_devices[j] == old_devices[j - 1]);
                    } else {
                        assert(new_devices[i] == old_devices[i - 1]);
                        assert(new_devices[j] == old_devices[j - 1]);
                    }
                }
            }
            proof {
                Self::lemma_insert_view(old_devices, new_devices, p as int);
            }
        }
        self.devices = devices;
    }

    /// Forgets the device with the ID `id`, if there is one.
    pub fn remove(&mut self, id: &str)
        ensures
            final(self)@ == old(self)@.remove(id@),
    {
        proof {
            use_type_invariant(&*self);
        }
        let mut devices: Vec<Device> = Vec::new();
        std::mem::swap(&mut devices, &mut self.devices);
        let ghost old_devices = devices@;
        let key_chars = chars_of(id);
        let mut p: usize = 0;
        while p < devices.len() && id_is_before(&devices[p], &key_chars)
            invariant
                p <= devices.len(),
                devices@ == old_devices,
                sorted_by_id(old_devices),
                key_chars@ == id@,
                forall|j: int| 0 <= j < p ==> id_before(#[trigger] old_devices[j].id@, id@),
            decreases devices.len() - p,
        {
            p += 1;
        }
        let found = if p < devices.len() {
            let other = chars_of(devices[p].id.as_str());
            order_ids(&other, &key_chars) == IdOrder::Same
        } else {
            false
        };
        if found {
            let _gone = devices.remove(p);
            let ghost new_devices = devices@;
            assert(sorted_by_id(new_devices)) by {
                assert forall|i: int, j: int| 0 <= i < j < new_devices.len() implies id_before(
                    #[trigger] new_devices[i].id@,
                    #[trigger] new_devices[j].id@,
                ) by {
                    let oi = if i < p { i } else { i + 1 };
                    let oj = if j < p { j } else { j + 1 };
                    assert(new_devices[i] == old_devices[oi]);
                    assert(new_devices[j] == old_devices[oj]);
                }
            }
            proof {
                Self::lemma_remove_view(old_devices, new_devices, p as int);
            }
        } else {
            proof {
                if p < old_devices.len() {
                    assert(id_before(id@, old_devices[p as int].id@)) by {
                        lemma_id_before_total(old_devices[p as int].id@, id@);
                    }
                }
                assert forall|j: int| 0 <= j < old_devices.len() implies #[trigger] old_devices[j].id@
                    != id@ by {
                    if j < p {
                        lemma_id_before_irreflexive(id@);
                    } else {
                        if j > p {
                            lemma_id_before_transitive(id@, old_devices[p as int].id@, old_devices[j].id@);
                        }
                        lemma_id_before_irreflexive(id@);
                    }
                }
                assert(!has_id(old_devices, id@));
                assert(devices_by_id(old_devices).remove(id@) =~= devices_by_id(old_devices));
            }
        }
        self.devices = devices;
    }

    /// The devices, in ascending order of ID.
    pub fn into_devices(self) -> (devices: Vec<Device>)
        ensures
            sorted_by_id(devices@),
            devices_by_id(devices@) == self@,
    {
        proof {
            use_type_invariant(&self);
        }
        self.devices
    }

    /// Updates the table with one discovery report: a present endpoint with a
    /// complete address is recorded under its ID; a present endpoint without
    /// one changes nothing; any other report forgets the ID.
    pub fn observe(&mut self, endpoint: Endpoint)
        ensures
            endpoint.present == Some(true) && endpoint.ip is Some && endpoint.port is Some ==> {
                let d = final(self)@[endpoint.id@];
                &&& final(self)@ == old(self)@.insert(endpoint.id@, d)
                &&& d.id@ == endpoint.id@
                &&& d.address@ == endpoint.ip->0@ + ":"@ + endpoint.port->0@
                &&& d.name@ == spec_device_name(endpoint.name)
                &&& d.device_type@ == spec_device_type(endpoint.device_type)
            },
            endpoint.present == Some(true) && !(endpoint.ip is Some && endpoint.port is Some)
                ==> final(self)@ == old(self)@,
            endpoint.present != Some(true) ==> final(self)@ == old(self)@.remove(endpoint.id@),
    {
        let ghost e = endpoint;
        match endpoint.present {
            Some(true) => {
                match endpoint_to_device(endpoint) {
                    Some(device) => {
                        let ghost d = device;
                        self.insert(device);
                        assert(self@[e.id@] == d);
                    },
                    None => {},
                }
            },
            _ => {
                self.remove(endpoint.id.as_str());
            },
        }
    }

    proof fn lemma_remove_view(old_devices: Seq<Device>, new_devices: Seq<Device>, p: int)
        requires
            sorted_by_id(old_devices),
            sorted_by_id(new_devices),
            0 <= p < old_devices.len(),
            new_devices == old_devices.remove(p),
        ensures
            devices_by_id(new_devices) == devices_by_id(old_devices).remove(old_devices[p].id@),
    {
        let key = old_devices[p].id@;
        let m_old = devices_by_id(old_devices);
        let m_new = devices_by_id(new_devices);
        assert forall|k: Seq<char>| #[trigger] m_new.dom().contains(k) <==> m_old.remove(
            key,
        ).dom().contains(k) by {
            if has_id(new_devices, k) {
                let i = choose|i: int| 0 <= i < new_devices.len() && #[trigger] new_devices[i].id@ == k;
                let oi = if i < p { i } else { i + 1 };
                assert(old_devices[oi].id@ == k);
                if k == key {
                    lemma_sorted_unique(old_devices, oi, p);
                }
            }
            if has_id(old_devices, k) && k != key {
                let i = choose|i: int| 0 <= i < old_devices.len() && #[trigger] old_devices[i].id@ == k;
                if i < p {
                    assert(new_devices[i].id@ == k);
                } else {
                    assert(i != p);
                    assert(new_devices[i - 1].id@ == k);
                }
            }
        }
        assert forall|k: Seq<char>| #[trigger] m_new.dom().contains(k) implies m_new[k] == m_old.remove(
            key,
        )[k] by {
            let i = choose|i: int| 0 <= i < new_devices.len() && #[trigger] new_devices[i].id@ == k;
            lemma_lookup(new_devices, i);
            let oi = if i < p { i } else { i + 1 };
            assert(new_devices[i] == old_devices[oi]);
            lemma_lookup(old_devices, oi);
        }
        assert(m_new =~= m_old.remove(key));
    }

    proof fn lemma_replace_view(old_devices: Seq<Device>, new_devices: Seq<Device>, p: int)
        requires
            sorted_by_id(old_devices),
            sorted_by_id(new_devices),
            0 <= p < old_devices.len(),
            new_devices == old_devices.update(p, new_devices[p]),
            new_devices[p].id@ == old_devices[p].id@,
        ensures
            devices_by_id(new_devices) == devices_by_id(old_devices).insert(
                new_devices[p].id@,
                new_devices[p],
            ),
    {
        let key = new_devices[p].id@;
        let m_old = devices_by_id(old_devices);
        let m_new = devices_by_id(new_devices);
        assert forall|k: Seq<char>| #[trigger] m_new.dom().contains(k) <==> m_old.insert(
            key,
            new_devices[p],
        ).dom().contains(k) by {
            if has_id(new_devices, k) {
                let i = choose|i: int| 0 <= i < new_devices.len() && #[trigger] new_devices[i].id@ == k;
                assert(old_devices[i].id@ == k);
            }
            if has_id(old_devices, k) {
                let i = choose|i: int| 0 <= i < old_devices.len() && #[trigger] old_devices[i].id@ == k;
                assert(new_devices[i].id@ == k);
            }
        }
        assert forall|k: Seq<char>| #[trigger] m_new.dom().contains(k) implies m_new[k] == m_old.insert(
            key,
            new_devices[p],
        )[k] by {
            let i = choose|i: int| 0 <= i < new_devices.len() && #[trigger] new_devices[i].id@ == k;
            lemma_lookup(new_devices, i);
            if i != p {
                assert(new_devices[i] == old_devices[i]);
                lemma_lookup(old_devices, i);
                if k == key {
                    lemma_sorted_unique(new_devices, i, p);
                }
            } else {
                lemma_lookup(new_devices, p);
            }
        }
        assert(m_new =~= m_old.insert(key, new_devices[p]));
    }

    proof fn lemma_insert_view(old_devices: Seq<Device>, new_devices: Seq<Device>, p: int)
        requires
            sorted_by_id(old_devices),
            sorted_by_id(new_devices),
            0 <= p <= old_devices.len(),
            new_devices == old_devices.insert(p, new_devices[p]),
        ensures
            devices_by_id(new_devices) == devices_by_id(old_devices).insert(
                new_devices[p].id@,
                new_devices[p],
            ),
    {
        let key = new_devices[p].id@;
        let m_old = devices_by_id(old_devices);
        let m_new = devices_by_id(new_devices);
        assert forall|k: Seq<char>| #[trigger] m_new.dom().contains(k) <==> m_old.insert(
            key,
            new_devices[p],
        ).dom().contains(k) by {
            if has_id(new_devices, k) {
                let i = choose|i: int| 0 <= i < new_devices.len() && #[trigger] new_devices[i].id@ == k;
                if i < p {
                    assert(old_devices[i].id@ == k);
                } else if i > p {
                    assert(old_devices[i - 1].id@ == k);
                }
            }
            if has_id(old_devices, k) {
                let i = choose|i: int| 0 <= i < old_devices.len() && #[trigger] old_devices[i].id@ == k;
                if i < p {
                    assert(new_devices[i].id@ == k);
                } else {
                    assert(new_devices[i + 1].id@ == k);
                }
            }
            if k == key {
                assert(new_devices[p].id@ == k);
            }
        }
        assert forall|k: Seq<char>| #[trigger] m_new.dom().contains(k) implies m_new[k] == m_old.insert(
            key,
            new_devices[p],
        )[k] by {
            let i = choose|i: int| 0 <= i < new_devices.len() && #[trigger] new_devices[i].id@ == k;
            lemma_lookup(new_devices, i);
            if i < p {
                lemma_lookup(old_devices, i);
                if k == key {
                    lemma_sorted_unique(new_devices, i, p);
                }
            } else if i > p {
                lemma_lookup(old_devices, i - 1);
                if k == key {
                    lemma_sorted_unique(new_devices, i, p);
                }
            }
        }
        assert(m_new =~= m_old.insert(key, new_devices[p]));
    }
}


/// The line that lists a device in the text discovery report.
pub fn device_line(device: &Device) -> (line: String)
    ensures
        line@ == device.id@ + "\t"@ + device.name@ + "\t"@ + device.device_type@,
{
    let mut line = device.id.clone();
    line.append("\t");
    line.append(device.name.as_str());
    line.append("\t");
    line.append(device.device_type.as_str());
    line
}

/// The report of a transfer of `count` files to `device_name`, before
/// (`dry_run`) or after it was sent.
pub open spec fn spec_transfer_message(dry_run: bool, count: u64, device_name: Seq<char>) -> Seq<
    char,
> {
    if dry_run {
        "Would send "@ + decimal(count as nat) + " file(s) to "@ + device_name
    } else {
        "Sent "@ + decimal(count as nat) + " file(s) to "@ + device_name
    }
}

/// The message that reports a Quick Share transfer.
pub fn transfer_message(dry_run: bool, count: u64, device_name: &str) -> (text: String)
    ensures
        text@ == spec_transfer_message(dry_run, count, device_name@),
{
    let mut text = if dry_run {
        "Would send ".to_owned()
    } else {
        "Sent ".to_owned()
    };
    push_decimal(&mut text, count);
    text.append(" file(s) to ");
    text.append(device_name);
    text
}

/// The stage a transfer reports.
#[derive(Clone, Copy, Debug, PartialEq, Eq, Structural)]
pub enum TransferPhase {
    Finished,
    Rejected,
    Cancelled,
    Disconnected,
    /// Any stage that does not end the transfer.
    Other,
}

/// A progress report of the Quick Share service, as plain values.
pub struct TransferUpdate {
    /// The endpoint the report is about.
    pub device_id: String,
    /// Whether the report comes from the transfer client.
    pub from_client: bool,
    /// Whether the transfer is outbound.
    pub outbound: bool,
    /// The confirmation code in the report's metadata, if any.
    pub pin_code: Option<String>,
    /// The stage of the transfer, if reported.
    pub phase: Option<TransferPhase>,
}

/// What the event stream of the Quick Share service delivered.
pub enum TransferEvent {
    /// A report.
    Update(TransferUpdate),
    /// Some reports were missed.
    Lagged,
    /// The stream ended.
    Closed,
    /// The deadline passed first.
    TimedOut,
}

/// Why a Quick Share transfer did not complete.
#[derive(Clone, Copy, Debug, PartialEq, Eq, Structural)]
pub enum TransferError {
    StreamClosed,
    TimedOut,
    Rejected,
    Cancelled,
    Disconnected,
}

/// The message of each failure.
pub open spec fn spec_transfer_error_message(e: TransferError) -> Seq<char> {
    match e {
        TransferError::StreamClosed => "Quick Share event stream closed"@,
        TransferError::TimedOut => "Quick Share timed out waiting for consent or transfer"@,
        TransferError::Rejected => "Quick Share was rejected"@,
        TransferError::Cancelled => "Quick Share was cancelled"@,
        TransferError::Disconnected => "Quick Share device disconnected"@,
    }
}

impl TransferError {
    /// The message shown to the user.
    pub fn message(&self) -> (text: String)
        ensures
            text@ == spec_transfer_error_message(*self),
    {
        match self {
            TransferError::StreamClosed => "Quick Share event stream closed".to_owned(),
            TransferError::TimedOut => "Quick Share timed out waiting for consent or transfer".to_owned(),
            TransferError::Rejected => "Quick Share was rejected".to_owned(),
            TransferError::Cancelled => "Quick Share was cancelled".to_owned(),
            TransferError::Disconnected => "Quick Share device disconnected".to_owned(),
        }
    }
}

/// What to do after one event.
pub struct TransferStep {
    /// A new confirmation code to show to the user.
    pub announce_pin: Option<String>,
    /// The end of the transfer, when it has ended.
    pub outcome: Option<Result<(), TransferError>>,
}

/// Follows one outbound Quick Share transfer through its events.
pub struct TransferWatch {
    /// The endpoint the files go to.
    pub device_id: String,
    /// The confirmation code last shown.
    pub pin: Option<String>,
}

/// Whether an event is a report about this transfer that matters.
pub open spec fn concerns(device_id: Seq<char>, u: TransferUpdate) -> bool {
    u.device_id@ == device_id && u.from_client && u.outbound
}

/// How a reported stage ends the transfer.
pub open spec fn spec_phase_outcome(phase: Option<TransferPhase>) -> Option<Result<(), TransferError>> {
    match phase {
        Some(TransferPhase::Finished) => Some(Ok(())),
        Some(TransferPhase::Rejected) => Some(Err(TransferError::Rejected)),
        Some(TransferPhase::Cancelled) => Some(Err(TransferError::Cancelled)),
        Some(TransferPhase::Disconnected) => Some(Err(TransferError::Disconnected)),
        _ => None,
    }
}

/// Whether a report carries a confirmation code other than the one shown.
pub open spec fn new_pin(shown: Option<String>, u: TransferUpdate) -> bool {
    u.pin_code is Some && opt_view(u.pin_code) != opt_view(shown)
}

impl TransferWatch {
    /// Starts following a transfer to `device_id`; no code was shown yet.
    pub fn new(device_id: String) -> (watch: TransferWatch)
        ensures
            watch.device_id == device_id,
            watch.pin is None,
    {
        TransferWatch { device_id, pin: None }
    }

    /// Takes one event. Reports about other endpoints, from other sources or
    /// about inbound transfers are ignored. A new confirmation code is shown
    /// once; a finished, rejected, cancelled or disconnected transfer ends the
    /// watch, as do a closed stream and the deadline.
    pub fn observe(&mut self, event: TransferEvent) -> (step: TransferStep)
        ensures
            final(self).device_id == old(self).device_id,
            event is Lagged ==> step.announce_pin is None && step.outcome is None && final(self).pin
                == old(self).pin,
            event is Closed ==> step.announce_pin is None && step.outcome == Some(
                Err::<(), TransferError>(TransferError::StreamClosed),
            ) && final(self).pin == old(self).pin,
            event is TimedOut ==> step.announce_pin is None && step.outcome == Some(
                Err::<(), TransferError>(TransferError::TimedOut),
            ) && final(self).pin == old(self).pin,
            event matches TransferEvent::Update(u) ==> {
                if !concerns(old(self).device_id@, u) {
                    &&& step.announce_pin is None
                    &&& step.outcome is None
                    &&& final(self).pin == old(self).pin
                } else {
                    &&& step.outcome == spec_phase_outcome(u.phase)
                    &&& new_pin(old(self).pin, u) ==> (final(self).pin == u.pin_code
                        && step.announce_pin == u.pin_code)
                    &&& !new_pin(old(self).pin, u) ==> (final(self).pin == old(self).pin
                        && step.announce_pin is None)
                }
            },
    {
        match event {
            TransferEvent::Lagged => TransferStep { announce_pin: None, outcome: None },
            TransferEvent::Closed => TransferStep {
                announce_pin: None,
                outcome: Some(Err(TransferError::StreamClosed)),
            },
            TransferEvent::TimedOut => TransferStep {
                announce_pin: None,
                outcome: Some(Err(TransferError::TimedOut)),
            },
            TransferEvent::Update(u) => {
                if !(u.device_id == self.device_id) || !u.from_client || !u.outbound {
                    return TransferStep { announce_pin: None, outcome: None };
                }
                let phase = u.phase;
                let changed = match (&u.pin_code, &self.pin) {
                    (Some(code), Some(shown)) => !(*code == *shown),
                    (Some(_), None) => true,
                    (None, _) => false,
                };
                let mut announce_pin: Option<String> = None;
                if changed {
                    announce_pin = match &u.pin_code {
                        Some(code) => Some(code.clone()),
                        None => None,
                    };
                    self.pin = u.pin_code;
                }
                let outcome = match phase {
                    Some(TransferPhase::Finished) => Some(Ok(())),
                    Some(TransferPhase::Rejected) => Some(Err(TransferError::Rejected)),
                    Some(TransferPhase::Cancelled) => Some(Err(TransferError::Cancelled)),
                    Some(TransferPhase::Disconnected) => Some(Err(TransferError::Disconnected)),
                    _ => None,
                };
                TransferStep { announce_pin, outcome }
            },
        }
    }
}

} // verus!
