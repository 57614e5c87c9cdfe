use driver_init::init::init_rx_buf_pool;
use driver_init::init::init_rx_queue;
use driver_init::init::init_tx_queue;
use driver_init::BasicRxDescriptor;
use driver_init::BasicTxDescriptor;
use driver_init::BufferPool;
use driver_init::BumpMapper;
use driver_init::RxRegisterFile;
use driver_init::TxRegisterFile;
use driver_init::PAGE_SIZE;

const PAGE: u64 = PAGE_SIZE as u64;

#[test]
fn fill_pool_creates_the_requested_buffers() {
    let mut mapper = BumpMapper::new(100, 64);
    let mut pool = BufferPool::with_capacity(4);
    init_rx_buf_pool(4, 2048, &mut pool, &mut mapper).expect("pool fill should succeed");
    assert_eq!(pool.len(), 4);
    for i in 0..4u64 {
        let buf = pool.acquire().expect("pool holds four buffers");
        assert_eq!(buf.phys_addr(), (100 + i) * PAGE);
        assert_eq!(buf.length(), 2048);
        assert_eq!(buf.region_size_in_bytes(), PAGE_SIZE);
    }
    assert!(pool.acquire().is_none());
}

#[test]
fn fill_pool_with_zero_buffers_is_a_no_op() {
    let mut mapper = BumpMapper::new(0, 4);
    let mut pool = BufferPool::with_capacity(4);
    init_rx_buf_pool(0, 2048, &mut pool, &mut mapper).expect("an empty fill should succeed");
    assert_eq!(pool.len(), 0);
}

#[test]
fn fill_pool_beyond_capacity_fails_and_keeps_partial_fill() {
    let mut mapper = BumpMapper::new(0, 16);
    let mut pool = BufferPool::with_capacity(2);
    let r = init_rx_buf_pool(3, 1024, &mut pool, &mut mapper);
    assert_eq!(r, Err("nic rx buffer pool is full"));
    assert_eq!(pool.len(), 2);
}

#[test]
fn fill_pool_propagates_allocation_failure() {
    let mut mapper = BumpMapper::new(0, 1);
    let mut pool = BufferPool::with_capacity(4);
    let r = init_rx_buf_pool(2, 2048, &mut pool, &mut mapper);
    assert_eq!(r, Err("out of physical memory"));
    assert_eq!(pool.len(), 1);
}

#[test]
fn rx_ring_attaches_one_buffer_per_descriptor_in_pool_order() {
    // Pool capacity 4, pre-filled with 4 buffers of 2048 bytes; a 4-entry
    // ring drains the pool to empty and bears the 4 original physical
    // addresses in the order they were pushed (the pool is FIFO).
    let mut mapper = BumpMapper::new(100, 64);
    let mut pool = BufferPool::with_capacity(4);
    init_rx_buf_pool(4, 2048, &mut pool, &mut mapper).expect("pool fill should succeed");

    let mut regs = RxRegisterFile::new();
    let (ring, bufs) = init_rx_queue::<BasicRxDescriptor, _, _>(
        4,
        &mut pool,
        2048,
        &mut regs,
        &mut mapper,
    )
    .expect("ring initialization should succeed");

    assert_eq!(pool.len(), 0);
    assert_eq!(ring.len(), 4);
    assert_eq!(bufs.len(), 4);
    for i in 0..4usize {
        let expected = (100 + i as u64) * PAGE;
        assert_eq!(bufs[i].phys_addr(), expected);
        assert_eq!(ring.record(i).addr, expected);
    }

    // The ring itself landed on the next free page.
    assert_eq!(ring.phys_addr(), 104 * PAGE);
    assert_eq!(ring.phys_addr() % 128, 0);
    assert_eq!(regs.rdbal(), (104 * PAGE) as u32);
    assert_eq!(regs.rdbah(), 0);
    assert_eq!(regs.rdlen(), 64);
    assert_eq!(regs.rdh(), 0);
    assert_eq!(regs.rdt(), 0);
}

#[test]
fn rx_ring_falls_back_to_fresh_allocation_when_pool_runs_dry() {
    let mut mapper = BumpMapper::new(0, 16);
    let mut pool = BufferPool::with_capacity(4);
    init_rx_buf_pool(2, 1024, &mut pool, &mut mapper).expect("pool fill should succeed");

    let mut regs = RxRegisterFile::new();
    let (ring, bufs) = init_rx_queue::<BasicRxDescriptor, _, _>(
        4,
        &mut pool,
        2048,
        &mut regs,
        &mut mapper,
    )
    .expect("ring initialization should succeed");

    // Buffers 0 and 1 come from the pool with its recorded length; buffers 2
    // and 3 are freshly allocated with exactly the requested size.
    assert_eq!(bufs[0].length(), 1024);
    assert_eq!(bufs[1].length(), 1024);
    assert_eq!(bufs[2].length(), 2048);
    assert_eq!(bufs[3].length(), 2048);
    assert_eq!(bufs[0].phys_addr(), 0);
    assert_eq!(bufs[1].phys_addr(), PAGE);
    assert_eq!(bufs[2].phys_addr(), 3 * PAGE);
    assert_eq!(bufs[3].phys_addr(), 4 * PAGE);
    assert_eq!(pool.len(), 0);
    for i in 0..4usize {
        assert_eq!(ring.record(i).addr, bufs[i].phys_addr());
    }
}

#[test]
fn rx_ring_splits_high_physical_addresses_across_base_registers() {
    // The first page of this mapper sits at physical address 1 << 32.
    let mut mapper = BumpMapper::new(0x10_0000, 16);
    let mut pool = BufferPool::with_capacity(4);
    let mut regs = RxRegisterFile::new();
    let (ring, bufs) = init_rx_queue::<BasicRxDescriptor, _, _>(
        8,
        &mut pool,
        1500,
        &mut regs,
        &mut mapper,
    )
    .expect("ring initialization should succeed");

    assert_eq!(ring.phys_addr(), 1u64 << 32);
    assert_eq!(regs.rdbal(), 0);
    assert_eq!(regs.rdbah(), 1);
    assert_eq!(regs.rdlen(), 8 * 16);
    assert_eq!(bufs.len(), 8);
    for b in &bufs {
        assert_eq!(b.length(), 1500);
    }
}

#[test]
fn zero_length_rx_ring_is_valid_and_empty() {
    let mut mapper = BumpMapper::new(7, 4);
    let mut pool = BufferPool::with_capacity(2);
    let mut regs = RxRegisterFile::new();
    let (ring, bufs) = init_rx_queue::<BasicRxDescriptor, _, _>(
        0,
        &mut pool,
        2048,
        &mut regs,
        &mut mapper,
    )
    .expect("a zero-length ring is permitted");

    assert_eq!(ring.len(), 0);
    assert!(bufs.is_empty());
    assert_eq!(regs.rdbal(), (7 * PAGE) as u32);
    assert_eq!(regs.rdbah(), 0);
    assert_eq!(regs.rdlen(), 0);
    assert_eq!(regs.rdh(), 0);
    assert_eq!(regs.rdt(), 0);
}

#[test]
fn failed_rx_ring_restores_pool_and_leaves_registers_alone() {
    let mut fill_mapper = BumpMapper::new(0, 2);
    let mut pool = BufferPool::with_capacity(4);
    init_rx_buf_pool(2, 1024, &mut pool, &mut fill_mapper).expect("pool fill should succeed");

    // This mapper has exactly one page: enough for the descriptor array,
    // nothing left for the fresh buffer needed at index 2.
    let mut mapper = BumpMapper::new(50, 1);
    let mut regs = RxRegisterFile::new();
    let r = init_rx_queue::<BasicRxDescriptor, _, _>(4, &mut pool, 2048, &mut regs, &mut mapper);
    assert_eq!(r.err(), Some("out of physical memory"));

    // The two drained buffers are back, oldest first.
    assert_eq!(pool.len(), 2);
    let first = pool.acquire().expect("restored buffer");
    let second = pool.acquire().expect("restored buffer");
    assert_eq!(first.phys_addr(), 0);
    assert_eq!(second.phys_addr(), PAGE);

    // The registers were never touched.
    assert_eq!(regs.rdbal(), 0);
    assert_eq!(regs.rdbah(), 0);
    assert_eq!(regs.rdlen(), 0);
    assert_eq!(regs.rdh(), 0);
    assert_eq!(regs.rdt(), 0);
}

#[test]
fn rx_ring_allocation_failure_is_propagated() {
    let mut mapper = BumpMapper::new(5, 0);
    let mut pool = BufferPool::with_capacity(2);
    let mut regs = RxRegisterFile::new();
    let r = init_rx_queue::<BasicRxDescriptor, _, _>(4, &mut pool, 2048, &mut regs, &mut mapper);
    assert_eq!(r.err(), Some("out of physical memory"));
    assert_eq!(pool.len(), 0);
    assert_eq!(regs.rdlen(), 0);
}

#[test]
fn tx_ring_descriptors_start_idle_and_registers_are_programmed() {
    let mut mapper = BumpMapper::new(20, 8);
    let mut regs = TxRegisterFile::new();
    let ring = init_tx_queue::<BasicTxDescriptor, _, _>(4, &mut regs, &mut mapper)
        .expect("ring initialization should succeed");

    assert_eq!(ring.len(), 4);
    assert_eq!(ring.phys_addr(), 20 * PAGE);
    assert_eq!(ring.phys_addr() % 128, 0);
    let idle = BasicTxDescriptor { addr: 0, length: 0, cso: 0, cmd: 0, status: 0, css: 0, special: 0 };
    for i in 0..4usize {
        assert_eq!(*ring.record(i), idle);
    }
    assert_eq!(regs.tdbal(), (20 * PAGE) as u32);
    assert_eq!(regs.tdbah(), 0);
    assert_eq!(regs.tdlen(), 64);
    assert_eq!(regs.tdh(), 0);
    assert_eq!(regs.tdt(), 0);
}

#[test]
fn zero_length_tx_ring_is_valid_and_empty() {
    let mut mapper = BumpMapper::new(3, 2);
    let mut regs = TxRegisterFile::new();
    let ring = init_tx_queue::<BasicTxDescriptor, _, _>(0, &mut regs, &mut mapper)
        .expect("a zero-length ring is permitted");
    assert_eq!(ring.len(), 0);
    assert_eq!(regs.tdlen(), 0);
    assert_eq!(regs.tdh(), 0);
    assert_eq!(regs.tdt(), 0);
}

#[test]
fn tx_ring_allocation_failure_leaves_registers_alone() {
    let mut mapper = BumpMapper::new(0, 0);
    let mut regs = TxRegisterFile::new();
    let r = init_tx_queue::<BasicTxDescriptor, _, _>(4, &mut regs, &mut mapper);
    assert_eq!(r.err(), Some("out of physical memory"));
    assert_eq!(regs.tdbal(), 0);
    assert_eq!(regs.tdbah(), 0);
    assert_eq!(regs.tdlen(), 0);
}
