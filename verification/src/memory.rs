use vstd::prelude::*;

verus! {

/// A memory-mapped peripheral.
///
/// A device answers byte reads and accepts byte writes over a fixed span of
/// addresses.  Reading is observation only: `read` leaves the device as it
/// was, which is what lets the memory subsystem give a functional account of
/// the byte visible at every address.  Writing may change the device, and
/// `write_spec` names the state it leaves behind.
pub trait Device: Sized {
    /// The number of addressable bytes the device spans.
    spec fn size_spec(&self) -> nat;

    /// The byte the device produces when read at `address`.
    spec fn read_spec(&self, address: u32) -> u8;

    /// The device state left behind by a write of `value` at `address`.
    spec fn write_spec(&self, address: u32, value: u8) -> Self;

    fn read(&mut self, address: u32) -> (value: u8)
        ensures
            *final(self) == *old(self),
            value == old(self).read_spec(address),
    ;

    fn write(&mut self, address: u32, value: u8)
        ensures
            *final(self) == old(self).write_spec(address, value),
    ;

    fn get_size(&mut self) -> (size: usize)
        ensures
            *final(self) == *old(self),
            size as nat == old(self).size_spec(),
    ;
}

/// One registered device binding: a device together with the half-open
/// address range `[position, position + size)` it answers for.
pub struct MMIODevice<D> {
    pub device: D,
    pub position: u32,
    pub size: usize,
}

/// The memory subsystem: a flat byte-addressable backing store overlaid by
/// zero or more memory-mapped device bindings, resolved in registration
/// order.
pub struct Memory<D: Device> {
    pub devices: Vec<MMIODevice<D>>,
    pub memory: Vec<u8>,
}

/// Whether the binding's address range `[position, position + size)`
/// contains `address`.
pub open spec fn covers<D>(binding: MMIODevice<D>, address: u32) -> bool {
    binding.position <= address && address < binding.position + binding.size
}

/// The index of the first binding whose range contains `address`, if any:
/// the first registered device wins when ranges overlap.
pub open spec fn first_hit<D>(bindings: Seq<MMIODevice<D>>, address: u32) -> Option<int>
    decreases bindings.len(),
{
    if bindings.len() == 0 {
        None
    } else if covers(bindings[0], address) {
        Some(0)
    } else {
        match first_hit(bindings.subrange(1, bindings.len() as int), address) {
            Some(i) => Some(i + 1),
            None => None,
        }
    }
}

/// If `bindings[i]` contains `address` and no earlier binding does, then
/// `i` is the first hit.
pub proof fn lemma_first_hit_at<D>(bindings: Seq<MMIODevice<D>>, address: u32, i: int)
    requires
        0 <= i < bindings.len(),
        covers(bindings[i], address),
        forall|j: int| 0 <= j < i ==> !covers(#[trigger] bindings[j], address),
    ensures
        first_hit(bindings, address) == Some(i),
    decreases bindings.len(),
{
    if i == 0 {
    } else {
        assert(!covers(bindings[0], address));
        let rest = bindings.subrange(1, bindings.len() as int);
        assert(covers(rest[i - 1], address));
        assert forall|j: int| 0 <= j < i - 1 implies !covers(#[trigger] rest[j], address) by {
            assert(rest[j] == bindings[j + 1]);
        }
        lemma_first_hit_at(rest, address, i - 1);
    }
}

/// A first hit is a real binding and its range does contain the address.
pub proof fn lemma_first_hit_covers<D>(bindings: Seq<MMIODevice<D>>, address: u32)
    ensures
        first_hit(bindings, address) matches Some(i) ==> 0 <= i < bindings.len() && covers(
            bindings[i],
            address,
        ),
    decreases bindings.len(),
{
    if bindings.len() > 0 && !covers(bindings[0], address) {
        lemma_first_hit_covers(bindings.subrange(1, bindings.len() as int), address);
    }
}

/// If no binding contains `address`, there is no first hit.
pub proof fn lemma_first_hit_none<D>(bindings: Seq<MMIODevice<D>>, address: u32)
    requires
        forall|j: int| 0 <= j < bindings.len() ==> !covers(#[trigger] bindings[j], address),
    ensures
        first_hit(bindings, address) is None,
    decreases bindings.len(),
{
    if bindings.len() == 0 {
    } else {
        let rest = bindings.subrange(1, bindings.len() as int);
        assert forall|j: int| 0 <= j < rest.len() implies !covers(#[trigger] rest[j], address) by {
            assert(rest[j] == bindings[j + 1]);
        }
        lemma_first_hit_none(rest, address);
    }
}

/// Two memory states that agree on the device bindings and on the backing
/// store: everything the memory contracts speak of.
pub open spec fn mem_eq<D: Device>(m1: Memory<D>, m0: Memory<D>) -> bool {
    m1.devices@ == m0.devices@ && m1.memory@ == m0.memory@
}

/// Relates the memory state after `set(address, value)` to the state
/// before: a covered address is delegated to the first matching device and
/// the backing store is untouched; an uncovered address goes straight to
/// the backing store.
pub open spec fn set_post<D: Device>(m0: Memory<D>, m1: Memory<D>, address: u32, value: u8) -> bool {
    match first_hit(m0.devices@, address) {
        Some(i) => {
            &&& m1.memory@ == m0.memory@
            &&& m1.devices@.len() == m0.devices@.len()
            &&& forall|j: int|
                0 <= j < m0.devices@.len() && j != i ==> m1.devices@[j] == #[trigger] m0.devices@[j]
            &&& m1.devices@[i].position == m0.devices@[i].position
            &&& m1.devices@[i].size == m0.devices@[i].size
            &&& m1.devices@[i].device == m0.devices@[i].device.write_spec(address, value)
        },
        None => {
            &&& m1.devices@ == m0.devices@
            &&& m1.memory@ == m0.memory@.update(address as int, value)
        },
    }
}

impl<D: Device> Memory<D> {
    /// The backing store, as the sequence of bytes it holds.
    pub open spec fn backing(&self) -> Seq<u8> {
        self.memory@
    }

    /// The byte visible at `address`: the first matching device's answer,
    /// the backing store's byte, or the out-of-bounds sentinel.
    pub open spec fn read_at(&self, address: u32) -> u8 {
        match first_hit(self.devices@, address) {
            Some(i) => self.devices@[i].device.read_spec(address),
            None => if (address as int) < self.memory@.len() {
                self.memory@[address as int]
            } else {
                0xFF
            },
        }
    }

    pub fn new(memory_size: usize) -> (result: Memory<D>)
        ensures
            result.devices@.len() == 0,
            result.memory@.len() == memory_size,
            forall|i: int| 0 <= i < memory_size ==> result.memory@[i] == 0u8,
    {
        let mut memory: Vec<u8> = Vec::new();
        while memory.len() < memory_size
            invariant
                memory@.len() <= memory_size,
                forall|i: int| 0 <= i < memory@.len() ==> memory@[i] == 0u8,
            decreases memory_size - memory@.len(),
        {
            memory.push(0u8);
        }
        Memory { devices: Vec::new(), memory }
    }

    /// Resolves `position` against the registered bindings in order; the
    /// first binding whose range contains it answers the read.  Outside
    /// every binding, the backing store answers, with `0xFF` for an
    /// address beyond its length: reads never fail.
    pub fn get(&mut self, position: u32) -> (value: u8)
        ensures
            final(self).devices@ == old(self).devices@,
            final(self).memory@ == old(self).memory@,
            value == old(self).read_at(position),
    {
        let mut idx: usize = 0;
        while idx < self.devices.len()
            invariant
                *self == *old(self),
                idx <= self.devices@.len(),
                forall|j: int| 0 <= j < idx ==> !covers(#[trigger] self.devices@[j], position),
            decreases self.devices@.len() - idx,
        {
            let dev_pos = self.devices[idx].position;
            let dev_size = self.devices[idx].size;
            if dev_pos <= position && ((position - dev_pos) as usize) < dev_size {
                proof {
                    lemma_first_hit_at(old(self).devices@, position, idx as int);
                }
                let value = self.devices[idx].device.read(position);
                proof {
                    assert(self.devices@ =~= old(self).devices@);
                }
                return value;
            }
            idx += 1;
        }
        proof {
            lemma_first_hit_none(self.devices@, position);
        }
        if self.memory.len() <= position as usize {
            return 0xFF;
        }
        self.memory[position as usize]
    }

    /// The bytes visible at `[start_pos, end_pos)`, in address order, each
    /// resolved exactly as `get` resolves it.
    pub fn get_bulk(&mut self, start_pos: u32, end_pos: u32) -> (bytes: Vec<u8>)
        ensures
            final(self).devices@ == old(self).devices@,
            final(self).memory@ == old(self).memory@,
            bytes@.len() == if start_pos <= end_pos { end_pos - start_pos } else { 0 },
            forall|k: int|
                0 <= k < bytes@.len() ==> bytes@[k] == old(self).read_at((start_pos + k) as u32),
    {
        let mut vec: Vec<u8> = Vec::new();
        let mut position = start_pos;
        while position < end_pos
            invariant
                self.devices@ == old(self).devices@,
                self.memory@ == old(self).memory@,
                start_pos <= position,
                position <= end_pos || position == start_pos,
                vec@.len() == position - start_pos,
                forall|k: int|
                    0 <= k < vec@.len() ==> vec@[k] == old(self).read_at((start_pos + k) as u32),
            decreases end_pos - position,
        {
            let byte = self.get(position);
            vec.push(byte);
            position += 1;
        }
        vec
    }

    /// Resolves `position` like `get`: a covered address is delegated to
    /// the first matching device; an uncovered one is written straight to
    /// the backing store, which the caller must know to be long enough.
    pub fn set(&mut self, position: u32, value: u8)
        requires
            first_hit(old(self).devices@, position) is None ==> (position as int) < old(
                self,
            ).memory@.len(),
        ensures
            set_post(*old(self), *final(self), position, value),
    {
        let mut idx: usize = 0;
        while idx < self.devices.len()
            invariant
                *self == *old(self),
                idx <= self.devices@.len(),
                forall|j: int| 0 <= j < idx ==> !covers(#[trigger] self.devices@[j], position),
            decreases self.devices@.len() - idx,
        {
            let dev_pos = self.devices[idx].position;
            let dev_size = self.devices[idx].size;
            if dev_pos <= position && ((position - dev_pos) as usize) < dev_size {
                proof {
                    lemma_first_hit_at(old(self).devices@, position, idx as int);
                }
                self.devices[idx].device.write(position, value);
                return;
            }
            idx += 1;
        }
        proof {
            lemma_first_hit_none(self.devices@, position);
        }
        self.memory[position as usize] = value;
    }

    /// Registers a device at `start_pos`, querying its size once; the
    /// binding is immutable thereafter.
    pub fn add_mmio_device(&mut self, start_pos: u32, device: D)
        ensures
            final(self).memory@ == old(self).memory@,
            final(self).devices@.len() == old(self).devices@.len() + 1,
            forall|j: int|
                0 <= j < old(self).devices@.len() ==> final(self).devices@[j] == #[trigger] old(
                    self,
                ).devices@[j],
            final(self).devices@.last().device == device,
            final(self).devices@.last().position == start_pos,
            final(self).devices@.last().size as nat == device.size_spec(),
    {
        let mut dev = device;
        let dev_size: usize = dev.get_size();

        let real_mmio_device: MMIODevice<D> = MMIODevice {
            device: dev,
            position: start_pos,
            size: dev_size,
        };

        self.devices.push(real_mmio_device);
    }

    /// The backing store's length, the bound the execution engine checks
    /// register-held addresses against.
    pub fn len(&mut self) -> (length: usize)
        ensures
            *final(self) == *old(self),
            length == old(self).backing().len(),
    {
        self.memory.len()
    }
}

/// A read-only device mapped over the bytes of a loaded image: reads
/// inside the image return its bytes, reads past its end return 0, and
/// writes are ignored.
pub struct MappedFile {
    pub file: Vec<u8>,
}

impl Device for MappedFile {
    open spec fn size_spec(&self) -> nat {
        self.file@.len()
    }

    open spec fn read_spec(&self, address: u32) -> u8 {
        if (address as int) < self.file@.len() {
            self.file@[address as int]
        } else {
            0
        }
    }

    open spec fn write_spec(&self, address: u32, value: u8) -> Self {
        *self
    }

    fn read(&mut self, address: u32) -> (value: u8) {
        if address as usize >= self.file.len() {
            return 0;
        }
        self.file[address as usize]
    }

    fn write(&mut self, address: u32, value: u8) {
    }

    fn get_size(&mut self) -> (size: usize) {
        self.file.len()
    }
}

} // verus!
