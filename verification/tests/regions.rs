use driver_init::BasicRxDescriptor;
use driver_init::BumpMapper;
use driver_init::Descriptor;
use driver_init::DescriptorArray;
use driver_init::MappedRegion;
use driver_init::MemoryMapper;
use driver_init::ReceiveBuffer;
use driver_init::RxDescriptor;
use driver_init::MMIO_FLAGS;
use driver_init::PAGE_SIZE;

#[test]
fn mapper_hands_out_page_aligned_page_sized_regions() {
    let mut mapper = BumpMapper::new(2, 8);
    let region = mapper.create_contiguous_mapping(100, MMIO_FLAGS).expect("space is available");
    assert_eq!(region.phys_addr(), 2 * PAGE_SIZE as u64);
    assert_eq!(region.size_in_bytes(), PAGE_SIZE);
    assert_eq!(region.phys_addr() % PAGE_SIZE as u64, 0);

    let region = mapper
        .create_contiguous_mapping(PAGE_SIZE + 1, MMIO_FLAGS)
        .expect("space is available");
    assert_eq!(region.phys_addr(), 3 * PAGE_SIZE as u64);
    assert_eq!(region.size_in_bytes(), 2 * PAGE_SIZE);
}

#[test]
fn mapper_fails_once_its_pages_are_spent() {
    let mut mapper = BumpMapper::new(0, 1);
    mapper.create_contiguous_mapping(1, MMIO_FLAGS).expect("one page is available");
    let r = mapper.create_contiguous_mapping(1, MMIO_FLAGS);
    assert_eq!(r.err(), Some("out of physical memory"));
}

#[test]
fn mapper_rejects_a_request_too_large_to_round_up() {
    let mut mapper = BumpMapper::new(0, 1024);
    let r = mapper.create_contiguous_mapping(usize::MAX, MMIO_FLAGS);
    assert_eq!(r.err(), Some("requested mapping size too large"));
}

#[test]
fn zero_byte_mappings_need_no_pages() {
    let mut mapper = BumpMapper::new(0, 0);
    let region = mapper.create_contiguous_mapping(0, MMIO_FLAGS).expect("zero bytes always fit");
    assert_eq!(region.size_in_bytes(), 0);
}

#[test]
fn receive_buffer_rejects_an_undersized_region() {
    let region = MappedRegion::new(4096, 100);
    match ReceiveBuffer::new(region, 200) {
        Ok(_) => panic!("a 100-byte region cannot back a 200-byte buffer"),
        Err((back, _msg)) => {
            assert_eq!(back.phys_addr(), 4096);
            assert_eq!(back.size_in_bytes(), 100);
        },
    }
}

#[test]
fn descriptor_array_rejects_an_undersized_region() {
    let region = MappedRegion::new(0, 16);
    match DescriptorArray::<BasicRxDescriptor>::from_region(region, 2) {
        Ok(_) => panic!("two 16-byte records cannot fit in 16 bytes"),
        Err((back, msg)) => {
            assert_eq!(back.size_in_bytes(), 16);
            assert_eq!(msg, "descriptor array does not fit in its mapped region");
        },
    }
}

#[test]
fn descriptor_array_starts_zeroed() {
    let region = MappedRegion::new(0, 64);
    let arr = DescriptorArray::<BasicRxDescriptor>::from_region(region, 4)
        .expect("four records fit in 64 bytes");
    assert_eq!(arr.len(), 4);
    for i in 0..4usize {
        assert_eq!(*arr.record(i), BasicRxDescriptor::zeroed());
    }
}

#[test]
fn rx_descriptor_init_records_the_buffer_address() {
    let mut desc = BasicRxDescriptor::zeroed();
    desc.status = 0xFF;
    desc.init(0xDEAD_B000);
    assert_eq!(desc.addr, 0xDEAD_B000);
    assert_eq!(desc.status, 0);
    assert_eq!(BasicRxDescriptor::record_size(), 16);
}
