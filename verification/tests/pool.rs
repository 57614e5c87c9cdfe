use driver_init::BufferPool;
use driver_init::BumpMapper;
use driver_init::MemoryMapper;
use driver_init::ReceiveBuffer;
use driver_init::MMIO_FLAGS;
use driver_init::PAGE_SIZE;

fn fresh_buffer(mapper: &mut BumpMapper, length: u16) -> ReceiveBuffer {
    let region = mapper
        .create_contiguous_mapping(length as usize, MMIO_FLAGS)
        .expect("allocation should succeed");
    ReceiveBuffer::new(region, length).expect("region is large enough")
}

#[test]
fn acquire_from_empty_pool_returns_none() {
    let mut pool = BufferPool::with_capacity(4);
    assert!(pool.acquire().is_none());
    assert_eq!(pool.len(), 0);
    assert_eq!(pool.capacity(), 4);
}

#[test]
fn release_then_acquire_returns_same_buffer() {
    let mut mapper = BumpMapper::new(10, 16);
    let mut pool = BufferPool::with_capacity(4);
    let buf = fresh_buffer(&mut mapper, 2048);
    let paddr = buf.phys_addr();
    assert_eq!(paddr, 10 * PAGE_SIZE as u64);
    assert!(pool.release(buf).is_ok());
    assert_eq!(pool.len(), 1);
    let back = pool.acquire().expect("pool holds one buffer");
    assert_eq!(back.phys_addr(), paddr);
    assert_eq!(back.length(), 2048);
    assert_eq!(pool.len(), 0);
}

#[test]
fn pool_is_first_in_first_out() {
    let mut mapper = BumpMapper::new(0, 16);
    let mut pool = BufferPool::with_capacity(8);
    let mut paddrs = Vec::new();
    for _ in 0..3 {
        let buf = fresh_buffer(&mut mapper, 1024);
        paddrs.push(buf.phys_addr());
        assert!(pool.release(buf).is_ok());
    }
    for expected in paddrs {
        let buf = pool.acquire().expect("pool is not empty yet");
        assert_eq!(buf.phys_addr(), expected);
    }
    assert!(pool.acquire().is_none());
}

#[test]
fn release_on_full_pool_fails_and_returns_buffer() {
    let mut mapper = BumpMapper::new(0, 16);
    let mut pool = BufferPool::with_capacity(2);
    for _ in 0..2 {
        assert!(pool.release(fresh_buffer(&mut mapper, 512)).is_ok());
    }
    let extra = fresh_buffer(&mut mapper, 512);
    let extra_paddr = extra.phys_addr();
    let extra_len = extra.length();
    match pool.release(extra) {
        Ok(()) => panic!("release into a full pool must fail"),
        Err(back) => {
            assert_eq!(back.phys_addr(), extra_paddr);
            assert_eq!(back.length(), extra_len);
        },
    }
    assert_eq!(pool.len(), 2);
}

#[test]
fn pool_never_exceeds_capacity() {
    let mut mapper = BumpMapper::new(0, 32);
    let mut pool = BufferPool::with_capacity(3);
    for i in 0..5 {
        let r = pool.release(fresh_buffer(&mut mapper, 256));
        assert_eq!(r.is_ok(), i < 3);
        assert!(pool.len() <= pool.capacity());
    }
    assert_eq!(pool.len(), 3);
}
