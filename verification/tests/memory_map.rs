use cpu::memory::{Device, MappedFile, Memory};

#[test]
fn set_then_get_at_unbound_address_round_trips() {
    let mut memory: Memory<MappedFile> = Memory::new(64);
    memory.set(10, 0xAB);
    assert_eq!(memory.get(10), 0xAB);
}

#[test]
fn new_memory_is_zeroed() {
    let mut memory: Memory<MappedFile> = Memory::new(8);
    assert_eq!(memory.len(), 8);
    for address in 0..8 {
        assert_eq!(memory.get(address), 0);
    }
}

#[test]
fn get_past_backing_store_returns_sentinel() {
    let mut memory: Memory<MappedFile> = Memory::new(16);
    assert_eq!(memory.get(16), 0xFF);
    assert_eq!(memory.get(1000), 0xFF);
}

#[test]
fn get_bulk_walks_addresses_in_order() {
    let mut memory: Memory<MappedFile> = Memory::new(4);
    memory.set(2, 7);
    memory.set(3, 9);
    let bytes = memory.get_bulk(2, 10);
    assert_eq!(bytes, vec![7, 9, 0xFF, 0xFF, 0xFF, 0xFF, 0xFF, 0xFF]);
}

#[test]
fn get_bulk_with_empty_range_is_empty() {
    let mut memory: Memory<MappedFile> = Memory::new(4);
    assert_eq!(memory.get_bulk(3, 3), Vec::<u8>::new());
}

#[test]
fn bound_address_reads_are_delegated_to_the_device() {
    let mut memory: Memory<MappedFile> = Memory::new(16);
    memory.set(1, 0x11);
    memory.add_mmio_device(0, MappedFile { file: vec![1, 2, 3] });
    assert_eq!(memory.get(0), 1);
    assert_eq!(memory.get(1), 2);
    assert_eq!(memory.get(2), 3);
    assert_eq!(memory.get(3), 0);
}

#[test]
fn bound_address_writes_are_delegated_and_backing_store_untouched() {
    let mut memory: Memory<MappedFile> = Memory::new(16);
    memory.set(1, 0x11);
    memory.add_mmio_device(0, MappedFile { file: vec![1, 2, 3] });

    memory.set(1, 0x55);
    assert_eq!(memory.get(1), 2);

    memory.set(5, 0x66);
    assert_eq!(memory.get(5), 0x66);
}

#[test]
fn first_registered_device_wins_on_overlap() {
    let mut memory: Memory<MappedFile> = Memory::new(16);
    memory.add_mmio_device(0, MappedFile { file: vec![10, 20] });
    memory.add_mmio_device(1, MappedFile { file: vec![30, 40] });

    assert_eq!(memory.get(0), 10);
    assert_eq!(memory.get(1), 20);
}

#[test]
fn device_registration_keeps_backing_store_length() {
    let mut memory: Memory<MappedFile> = Memory::new(32);
    memory.add_mmio_device(0, MappedFile { file: vec![1, 2] });
    assert_eq!(memory.len(), 32);
}

#[test]
fn mapped_file_reads_its_bytes_and_ignores_writes() {
    let mut file = MappedFile { file: vec![7, 8] };
    assert_eq!(file.read(0), 7);
    assert_eq!(file.read(1), 8);
    assert_eq!(file.read(5), 0);
    file.write(0, 99);
    assert_eq!(file.read(0), 7);
    assert_eq!(file.get_size(), 2);
}
