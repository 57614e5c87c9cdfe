//! Verified building blocks for bringing up packet-processing device
//! drivers: a bounded pool of DMA-capable receive buffers, descriptor-ring
//! construction for receive and transmit queues, the capability traits a
//! hardware family implements to be driven by them, and a few small helpers
//! for handing out singleton device instances.

pub mod buffers;
pub mod descriptors;
pub mod init;
pub mod mem;
pub mod pool;
pub mod registers;
pub mod serial;

pub use buffers::BufView;
pub use buffers::ReceiveBuffer;
pub use descriptors::BasicRxDescriptor;
pub use descriptors::BasicTxDescriptor;
pub use descriptors::Descriptor;
pub use descriptors::RxDescriptor;
pub use descriptors::TxDescriptor;
pub use init::DescriptorArray;
pub use init::DESCRIPTOR_ALIGNMENT;
pub use mem::BumpMapper;
pub use mem::MappedRegion;
pub use mem::MappingFlags;
pub use mem::MemoryMapper;
pub use mem::MMIO_FLAGS;
pub use mem::PAGE_SIZE;
pub use pool::BufferPool;
pub use registers::RxQueueRegisters;
pub use registers::RxRegisterFile;
pub use registers::RxRegisterValues;
pub use registers::TxQueueRegisters;
pub use registers::TxRegisterFile;
pub use registers::TxRegisterValues;
pub use serial::SerialPortAddress;
pub use serial::SerialPortInterruptEvent;
pub use serial::TriState;
