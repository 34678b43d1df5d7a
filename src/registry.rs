//! The registry of devices that have a running session.
use vstd::prelude::*;

verus! {

/// A set of serial numbers held in a `hashbrown::HashSet`.
#[verifier::external_body]
pub struct SerialSet {
    set: hashbrown::HashSet<String>,
}

/// The serial numbers a `SerialSet` holds.
pub uninterp spec fn serials_of(s: SerialSet) -> Set<Seq<char>>;

impl SerialSet {
    /// Relies on `hashbrown::HashSet::new`: the new set is empty.
    #[verifier::external_body]
    fn new() -> (r: SerialSet)
        ensures
            serials_of(r) == Set::<Seq<char>>::empty(),
    {
        SerialSet { set: hashbrown::HashSet::new() }
    }

    /// Relies on `hashbrown::HashSet::contains`: whether an equal string is in the set.
    #[verifier::external_body]
    fn contains(&self, serial: &String) -> (r: bool)
        ensures
            r == serials_of(*self).contains(serial@),
    {
        self.set.contains(serial)
    }

    /// Relies on `hashbrown::HashSet::insert`: adds the string; returns `true`
    /// when it was not present.
    #[verifier::external_body]
    fn insert(&mut self, serial: String) -> (r: bool)
        ensures
            r == !serials_of(*old(self)).contains(serial@),
            serials_of(*final(self)) == serials_of(*old(self)).insert(serial@),
    {
        self.set.insert(serial)
    }

    /// Relies on `hashbrown::HashSet::remove`: takes the string out; returns
    /// `true` when it was present.
    #[verifier::external_body]
    fn remove(&mut self, serial: &String) -> (r: bool)
        ensures
            r == serials_of(*old(self)).contains(serial@),
            serials_of(*final(self)) == serials_of(*old(self)).remove(serial@),
    {
        self.set.remove(serial)
    }

    /// Relies on `hashbrown::HashSet::iter`: every element once, in an
    /// unspecified order.
    #[verifier::external_body]
    fn to_vec(&self) -> (r: Vec<String>)
        ensures
            forall|i: int| 0 <= i < r@.len() ==> serials_of(*self).contains(#[trigger] r@[i]@),
            forall|x: Seq<char>|
                #[trigger] serials_of(*self).contains(x) ==> exists|i: int|
                    0 <= i < r@.len() && #[trigger] r@[i]@ == x,
            forall|i: int, j: int| 0 <= i < j < r@.len() ==> r@[i]@ != r@[j]@,
    {
        self.set.iter().cloned().collect()
    }
}

/// Vendor id of the supported mouse.
pub const VID: u16 = 0x0738;

/// Product id of the supported mouse.
pub const PID: u16 = 0x1713;

/// Whether a bus device with these ids is a supported mouse.
pub fn is_supported_device(vendor_id: u16, product_id: u16) -> (r: bool)
    ensures
        r == (vendor_id == VID && product_id == PID),
{
    vendor_id == VID && product_id == PID
}

/// Whether discovering `serial` starts a session: only when none runs for it.
pub open spec fn admits(active: Set<Seq<char>>, serial: Seq<char>) -> bool {
    !active.contains(serial)
}

/// Serial numbers of the devices that currently have a running session; at
/// most one session runs per serial number.
pub struct DeviceRegistry {
    serials: SerialSet,
}

impl View for DeviceRegistry {
    type V = Set<Seq<char>>;

    closed spec fn view(&self) -> Set<Seq<char>> {
        serials_of(self.serials)
    }
}

impl DeviceRegistry {
    /// A registry with no active device.
    pub fn new() -> (r: DeviceRegistry)
        ensures
            r@ == Set::<Seq<char>>::empty(),
    {
        DeviceRegistry { serials: SerialSet::new() }
    }

    /// Whether a session runs for `serial`.
    pub fn contains(&self, serial: &String) -> (r: bool)
        ensures
            r == self@.contains(serial@),
    {
        self.serials.contains(serial)
    }

    /// Registers a discovered device. Returns `true`, and records the serial,
    /// only when no session runs for it yet; then the caller starts one.
    pub fn try_register(&mut self, serial: &String) -> (started: bool)
        ensures
            started == admits(old(self)@, serial@),
            final(self)@ == old(self)@.insert(serial@),
    {
        if !self.serials.contains(serial) {
            self.serials.insert(serial.clone());
            true
        } else {
            proof {
                assert(old(self)@.insert(serial@) =~= old(self)@);
            }
            false
        }
    }

    /// Forgets a device whose session ended.
    pub fn unregister(&mut self, serial: &String)
        ensures
            final(self)@ == old(self)@.remove(serial@),
    {
        self.serials.remove(serial);
    }

    /// The serial numbers of every active device, each once, in no particular order.
    pub fn serials(&self) -> (r: Vec<String>)
        ensures
            forall|i: int| 0 <= i < r@.len() ==> self@.contains(#[trigger] r@[i]@),
            forall|x: Seq<char>|
                #[trigger] self@.contains(x) ==> exists|i: int|
                    0 <= i < r@.len() && #[trigger] r@[i]@ == x,
            forall|i: int, j: int| 0 <= i < j < r@.len() ==> r@[i]@ != r@[j]@,
    {
        self.serials.to_vec()
    }
}

/// Discovering the same device twice never admits two sessions: once a
/// discovery has registered a serial, a second one is refused until the
/// session ends and unregisters it.
pub proof fn lemma_discovery_idempotent(active: Set<Seq<char>>, serial: Seq<char>)
    ensures
        !admits(active.insert(serial), serial),
        admits(active.insert(serial).remove(serial), serial),
{
}

} // verus!
