use wdk::device::{
    dispatch_device, Completion, DeviceDoFlags, DeviceFlags, DeviceOperations, DeviceType,
    RequestError, Access, IRP_MJ_DEVICE_CONTROL, IRP_MJ_READ, IRP_MJ_WRITE,
};
use wdk::driver::{delete_device, Driver};
use wdk::error::{ErrorKind, Status};
use wdk::pool::{PoolType, TaggedPool};
use wdk::request::{IoControlRequest, IoRequest, ReadRequest, WriteRequest};
use wdk::strings::UnicodeString;

/// A handler that stores written bytes verbatim at offset zero and serves
/// reads from the stored bytes at any offset.
struct MemHandler {
    stored: Vec<u8>,
    ioctl_calls: u32,
}

impl DeviceOperations for MemHandler {
    fn create(&mut self, _device_type: DeviceType, request: IoRequest) -> Result<Completion, RequestError> {
        Ok(Completion::Complete(0, request))
    }

    fn close(&mut self, _device_type: DeviceType, request: IoRequest) -> Result<Completion, RequestError> {
        Ok(Completion::Complete(0, request))
    }

    fn cleanup(&mut self, _device_type: DeviceType, request: IoRequest) -> Result<Completion, RequestError> {
        Ok(Completion::Complete(0, request))
    }

    fn read(&mut self, _device_type: DeviceType, mut request: ReadRequest) -> Result<Completion, RequestError> {
        let off = request.offset() as usize;
        if off >= self.stored.len() {
            return Ok(Completion::Complete(0, request.into_request()));
        }
        let available = self.stored.len() - off;
        let n = if request.user_len() < available { request.user_len() } else { available };
        let chunk: Vec<u8> = self.stored[off..off + n].to_vec();
        match request.write_user(0, chunk.as_slice()) {
            Ok(()) => Ok(Completion::Complete(n as u32, request.into_request())),
            Err(e) => Err(RequestError(e, request.into_request())),
        }
    }

    fn write(&mut self, _device_type: DeviceType, request: WriteRequest) -> Result<Completion, RequestError> {
        if request.offset() > 0 {
            return Err(RequestError(ErrorKind::EndOfFile, request.into_request()));
        }
        let n = request.user_len();
        match request.read_user(0, n) {
            Ok(bytes) => {
                self.stored = bytes;
                Ok(Completion::Complete(n as u32, request.into_request()))
            },
            Err(e) => Err(RequestError(e, request.into_request())),
        }
    }

    fn ioctl(&mut self, _device_type: DeviceType, request: IoControlRequest) -> Result<Completion, RequestError> {
        self.ioctl_calls += 1;
        Ok(Completion::Complete(0, request.into_request()))
    }
}

fn make_device(
    pool: &mut TaggedPool,
) -> (Driver, wdk::device::Device<MemHandler>) {
    let mut driver = Driver::new();
    let name = UnicodeString::from_utf16(&[0x4D, 0x65, 0x6D], PoolType::NonPagedPool, 1, pool)
        .ok()
        .expect("name allocation failed");
    let handler = MemHandler { stored: Vec::new(), ioctl_calls: 0 };
    let device = driver
        .create_device(
            &name,
            DeviceType::Unknown,
            DeviceFlags::from_bits(wdk::device::FILE_DEVICE_SECURE_OPEN),
            DeviceDoFlags::from_bits(wdk::device::DO_BUFFERED_IO),
            Access::NonExclusive,
            handler,
            pool,
        )
        .ok()
        .expect("device allocation failed");
    name.destroy(pool);
    (driver, device)
}

#[test]
fn dispatch_completeness_rejects_unrecognized_majors() {
    let mut pool = TaggedPool::new(1 << 16);
    let (_driver, mut device) = make_device(&mut pool);
    for major in [0x01u8, 0x05, 0x10, 0x7F, 0xFF] {
        let request = IoRequest::new(vec![1, 2, 3], 0, 0);
        let done = dispatch_device(&mut device, request, major);
        assert_eq!(done.status, Status::InvalidParameter);
        assert_eq!(done.bytes_transferred, 0);
    }
    delete_device(device, &mut pool);
}

#[test]
fn device_kind_guard_rejects_mismatched_control() {
    let mut pool = TaggedPool::new(1 << 16);
    let (_driver, mut device) = make_device(&mut pool);
    // Control code addressed to a Disk device (kind code 0x07), sent to an
    // Unknown device: rejected before the handler runs.
    let mismatched = (0x07u32 << 16) | (1 << 2);
    let request = IoRequest::new(Vec::new(), 0, mismatched);
    let done = dispatch_device(&mut device, request, IRP_MJ_DEVICE_CONTROL);
    assert_eq!(done.status, Status::InvalidParameter);
    assert_eq!(done.bytes_transferred, 0);
    let handler = delete_device(device, &mut pool);
    assert_eq!(handler.ioctl_calls, 0);
}

#[test]
fn matching_control_reaches_the_handler() {
    let mut pool = TaggedPool::new(1 << 16);
    let (_driver, mut device) = make_device(&mut pool);
    // Unknown's kind code is 0x22.
    let matching = (0x22u32 << 16) | (1 << 2);
    let request = IoRequest::new(Vec::new(), 0, matching);
    let done = dispatch_device(&mut device, request, IRP_MJ_DEVICE_CONTROL);
    assert_eq!(done.status, Status::Success);
    let handler = delete_device(device, &mut pool);
    assert_eq!(handler.ioctl_calls, 1);
}

#[test]
fn write_read_round_trip() {
    let mut pool = TaggedPool::new(1 << 16);
    let (_driver, mut device) = make_device(&mut pool);

    // Write ten bytes 0..=9 at offset 0.
    let write = IoRequest::new((0u8..10).collect(), 0, 0);
    let done = dispatch_device(&mut device, write, IRP_MJ_WRITE);
    assert_eq!(done.status, Status::Success);
    assert_eq!(done.bytes_transferred, 10);

    // Read with a 20-byte buffer at offset 0: exactly the ten bytes.
    let read = IoRequest::new(vec![0; 20], 0, 0);
    let done = dispatch_device(&mut device, read, IRP_MJ_READ);
    assert_eq!(done.status, Status::Success);
    assert_eq!(done.bytes_transferred, 10);
    assert_eq!(&done.data[..10], &[0, 1, 2, 3, 4, 5, 6, 7, 8, 9]);

    // Read again with a 3-byte buffer at offset 5.
    let read = IoRequest::new(vec![0; 3], 5, 0);
    let done = dispatch_device(&mut device, read, IRP_MJ_READ);
    assert_eq!(done.status, Status::Success);
    assert_eq!(done.bytes_transferred, 3);
    assert_eq!(&done.data[..], &[5, 6, 7]);

    delete_device(device, &mut pool);
}

#[test]
fn write_beyond_offset_zero_is_end_of_file() {
    let mut pool = TaggedPool::new(1 << 16);
    let (_driver, mut device) = make_device(&mut pool);
    let write = IoRequest::new(vec![1, 2, 3], 4, 0);
    let done = dispatch_device(&mut device, write, IRP_MJ_WRITE);
    assert_eq!(done.status, Status::EndOfFile);
    assert_eq!(done.bytes_transferred, 0);
    let handler = delete_device(device, &mut pool);
    assert!(handler.stored.is_empty());
}

#[test]
fn device_teardown_releases_both_allocations() {
    let mut pool = TaggedPool::new(1 << 16);
    let (_driver, device) = make_device(&mut pool);
    let tag = wdk::device::DEVICE_TAG;
    assert_eq!(pool.live_with_tag(tag), 2);
    let handler = delete_device(device, &mut pool);
    assert!(handler.stored.is_empty());
    assert_eq!(pool.live_with_tag(tag), 0);
    assert_eq!(pool.freed_with_tag(tag), 2);
}
