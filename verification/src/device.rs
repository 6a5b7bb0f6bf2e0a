//! Devices and the request-dispatch engine.
//!
//! A [`Device`] owns a concrete handler — a [`DeviceOperations`]
//! implementation — behind an [`ExclusiveBox`], together with its kind and
//! flags.  [`dispatch_device`] is the engine's single step: it classifies an
//! arriving major code, narrows the request to the matching typed view,
//! routes it to the handler (after checking a device-control request's
//! encoded kind against the device's own), and completes the request exactly
//! once, whatever the handler decided.

use vstd::prelude::*;

use crate::error::{ErrorKind, Status};
use crate::owned::ExclusiveBox;
use crate::pool::RawPtr;
use crate::request::{
    CompletedRequest, ControlCode, IoControlRequest, IoRequest, IoRequestView, ReadRequest,
    WriteRequest,
};
verus! {

/// The tag the lifecycle manager's allocations — handler state and device
/// record — are made under.
pub const DEVICE_TAG: u32 = 0x64657644;

/// The out-of-band extension record attached to a device handle: the
/// indirection table, the erased handler state, and the device kind.  Only
/// its size enters the model; the typed [`Device`] carries the live fields.
#[allow(dead_code)]
pub struct DeviceRecord {
    vtable: usize,
    data: usize,
    device_type: u32,
}

/// Major operation code: a new handle is opened on the device.
pub const IRP_MJ_CREATE: u8 = 0x00;

/// Major operation code: the last handle reference is closed.
pub const IRP_MJ_CLOSE: u8 = 0x02;

/// Major operation code: a positioned read.
pub const IRP_MJ_READ: u8 = 0x03;

/// Major operation code: a positioned write.
pub const IRP_MJ_WRITE: u8 = 0x04;

/// Major operation code: a device-control operation.
pub const IRP_MJ_DEVICE_CONTROL: u8 = 0x0E;

/// Major operation code: a handle's pending work is cleaned up.
pub const IRP_MJ_CLEANUP: u8 = 0x12;

/// Device flag: open checks are applied to the whole device namespace.
pub const FILE_DEVICE_SECURE_OPEN: u32 = 0x100;

/// Device characteristics flag: the runtime copies user buffers for I/O.
pub const DO_BUFFERED_IO: u32 = 0x4;

/// Device characteristics flag: the runtime maps user buffers for I/O.
pub const DO_DIRECT_IO: u32 = 0x10;

/// Whether a device may be opened by several callers at once.
#[derive(Copy, Clone, Debug, PartialEq, Eq, Structural)]
pub enum Access {
    NonExclusive,
    Exclusive,
}

impl Access {
    /// Whether the device is exclusive to one caller.
    pub fn is_exclusive(&self) -> (r: bool)
        ensures
            r == (*self == Access::Exclusive),
    {
        match *self {
            Access::Exclusive => true,
            _ => false,
        }
    }
}

/// Flags a device is created with.
#[derive(Copy, Clone, Debug, PartialEq, Eq, Structural)]
pub struct DeviceFlags {
    pub bits: u32,
}

impl DeviceFlags {
    /// No flag set.
    pub fn empty() -> (r: DeviceFlags)
        ensures
            r.bits == 0,
    {
        DeviceFlags { bits: 0 }
    }

    /// Flags from their raw bit representation.
    pub fn from_bits(bits: u32) -> (r: DeviceFlags)
        ensures
            r.bits == bits,
    {
        DeviceFlags { bits }
    }

    /// The raw bit representation.
    pub fn bits(&self) -> (r: u32)
        ensures
            r == self.bits,
    {
        self.bits
    }
}

/// I/O characteristics a device is created with.
#[derive(Copy, Clone, Debug, PartialEq, Eq, Structural)]
pub struct DeviceDoFlags {
    pub bits: u32,
}

impl DeviceDoFlags {
    /// No flag set.
    pub fn empty() -> (r: DeviceDoFlags)
        ensures
            r.bits == 0,
    {
        DeviceDoFlags { bits: 0 }
    }

    /// Flags from their raw bit representation.
    pub fn from_bits(bits: u32) -> (r: DeviceDoFlags)
        ensures
            r.bits == bits,
    {
        DeviceDoFlags { bits }
    }

    /// The raw bit representation.
    pub fn bits(&self) -> (r: u32)
        ensures
            r == self.bits,
    {
        self.bits
    }
}

/// The kind of device, as the external runtime encodes it in device and
/// control codes.
#[derive(Copy, Clone, Debug, PartialEq, Eq, Structural)]
pub enum DeviceType {
    Port8042,
    Acpi,
    Battery,
    Beep,
    BusExtender,
    Cdrom,
    CdromFileSystem,
    Changer,
    Controller,
    DataLink,
    Dfs,
    DfsFileSystem,
    DfsVolume,
    Disk,
    DiskFileSystem,
    Dvd,
    FileSystem,
    Fips,
    FullscreenVideo,
    InportPort,
    Keyboard,
    Ks,
    Ksec,
    Mailslot,
    MassStorage,
    MidiIn,
    MidiOut,
    Modem,
    Mouse,
    MultiUncProvider,
    NamedPipe,
    Network,
    NetworkBrowser,
    NetworkFileSystem,
    NetworkRedirector,
    Null,
    ParallelPort,
    PhysicalNetcard,
    Printer,
    Scanner,
    Screen,
    Serenum,
    SerialPort,
    SerialMousePort,
    Smartcard,
    Smb,
    Sound,
    Streams,
    Tape,
    TapeFileSystem,
    Termsrv,
    Transport,
    Unknown,
    Vdm,
    Video,
    VirtualDisk,
    WaveIn,
    WaveOut,
}

impl DeviceType {
    /// The numeric code a device kind is encoded as.
    pub open spec fn spec_to_code(self) -> u32 {
        match self {
            DeviceType::Beep => 0x01,
            DeviceType::Cdrom => 0x02,
            DeviceType::CdromFileSystem => 0x03,
            DeviceType::Controller => 0x04,
            DeviceType::DataLink => 0x05,
            DeviceType::Dfs => 0x06,
            DeviceType::Disk => 0x07,
            DeviceType::DiskFileSystem => 0x08,
            DeviceType::FileSystem => 0x09,
            DeviceType::InportPort => 0x0A,
            DeviceType::Keyboard => 0x0B,
            DeviceType::Mailslot => 0x0C,
            DeviceType::MidiIn => 0x0D,
            DeviceType::MidiOut => 0x0E,
            DeviceType::Mouse => 0x0F,
            DeviceType::MultiUncProvider => 0x10,
            DeviceType::NamedPipe => 0x11,
            DeviceType::Network => 0x12,
            DeviceType::NetworkBrowser => 0x13,
            DeviceType::NetworkFileSystem => 0x14,
            DeviceType::Null => 0x15,
            DeviceType::ParallelPort => 0x16,
            DeviceType::PhysicalNetcard => 0x17,
            DeviceType::Printer => 0x18,
            DeviceType::Scanner => 0x19,
            DeviceType::SerialMousePort => 0x1A,
            DeviceType::SerialPort => 0x1B,
            DeviceType::Screen => 0x1C,
            DeviceType::Sound => 0x1D,
            DeviceType::Streams => 0x1E,
            DeviceType::Tape => 0x1F,
            DeviceType::TapeFileSystem => 0x20,
            DeviceType::Transport => 0x21,
            DeviceType::Unknown => 0x22,
            DeviceType::Video => 0x23,
            DeviceType::VirtualDisk => 0x24,
            DeviceType::WaveIn => 0x25,
            DeviceType::WaveOut => 0x26,
            DeviceType::Port8042 => 0x27,
            DeviceType::NetworkRedirector => 0x28,
            DeviceType::Battery => 0x29,
            DeviceType::BusExtender => 0x2A,
            DeviceType::Modem => 0x2B,
            DeviceType::Vdm => 0x2C,
            DeviceType::MassStorage => 0x2D,
            DeviceType::Smb => 0x2E,
            DeviceType::Ks => 0x2F,
            DeviceType::Changer => 0x30,
            DeviceType::Smartcard => 0x31,
            DeviceType::Acpi => 0x32,
            DeviceType::Dvd => 0x33,
            DeviceType::FullscreenVideo => 0x34,
            DeviceType::DfsFileSystem => 0x35,
            DeviceType::DfsVolume => 0x36,
            DeviceType::Serenum => 0x37,
            DeviceType::Termsrv => 0x38,
            DeviceType::Ksec => 0x39,
            DeviceType::Fips => 0x3A,
        }
    }

    /// The device kind a numeric code decodes to; an unassigned code decodes
    /// to `Unknown`.
    pub open spec fn spec_from_code(code: u32) -> DeviceType {
        if code == 0x01 {
            DeviceType::Beep
        } else if code == 0x02 {
            DeviceType::Cdrom
        } else if code == 0x03 {
            DeviceType::CdromFileSystem
        } else if code == 0x04 {
            DeviceType::Controller
        } else if code == 0x05 {
            DeviceType::DataLink
        } else if code == 0x06 {
            DeviceType::Dfs
        } else if code == 0x07 {
            DeviceType::Disk
        } else if code == 0x08 {
            DeviceType::DiskFileSystem
        } else if code == 0x09 {
            DeviceType::FileSystem
        } else if code == 0x0A {
            DeviceType::InportPort
        } else if code == 0x0B {
            DeviceType::Keyboard
        } else if code == 0x0C {
            DeviceType::Mailslot
        } else if code == 0x0D {
            DeviceType::MidiIn
        } else if code == 0x0E {
            DeviceType::MidiOut
        } else if code == 0x0F {
            DeviceType::Mouse
        } else if code == 0x10 {
            DeviceType::MultiUncProvider
        } else if code == 0x11 {
            DeviceType::NamedPipe
        } else if code == 0x12 {
            DeviceType::Network
        } else if code == 0x13 {
            DeviceType::NetworkBrowser
        } else if code == 0x14 {
            DeviceType::NetworkFileSystem
        } else if code == 0x15 {
            DeviceType::Null
        } else if code == 0x16 {
            DeviceType::ParallelPort
        } else if code == 0x17 {
            DeviceType::PhysicalNetcard
        } else if code == 0x18 {
            DeviceType::Printer
        } else if code == 0x19 {
            DeviceType::Scanner
        } else if code == 0x1A {
            DeviceType::SerialMousePort
        } else if code == 0x1B {
            DeviceType::SerialPort
        } else if code == 0x1C {
            DeviceType::Screen
        } else if code == 0x1D {
            DeviceType::Sound
        } else if code == 0x1E {
            DeviceType::Streams
        } else if code == 0x1F {
            DeviceType::Tape
        } else if code == 0x20 {
            DeviceType::TapeFileSystem
        } else if code == 0x21 {
            DeviceType::Transport
        } else if code == 0x22 {
            DeviceType::Unknown
        } else if code == 0x23 {
            DeviceType::Video
        } else if code == 0x24 {
            DeviceType::VirtualDisk
        } else if code == 0x25 {
            DeviceType::WaveIn
        } else if code == 0x26 {
            DeviceType::WaveOut
        } else if code == 0x27 {
            DeviceType::Port8042
        } else if code == 0x28 {
            DeviceType::NetworkRedirector
        } else if code == 0x29 {
            DeviceType::Battery
        } else if code == 0x2A {
            DeviceType::BusExtender
        } else if code == 0x2B {
            DeviceType::Modem
        } else if code == 0x2C {
            DeviceType::Vdm
        } else if code == 0x2D {
            DeviceType::MassStorage
        } else if code == 0x2E {
            DeviceType::Smb
        } else if code == 0x2F {
            DeviceType::Ks
        } else if code == 0x30 {
            DeviceType::Changer
        } else if code == 0x31 {
            DeviceType::Smartcard
        } else if code == 0x32 {
            DeviceType::Acpi
        } else if code == 0x33 {
            DeviceType::Dvd
        } else if code == 0x34 {
            DeviceType::FullscreenVideo
        } else if code == 0x35 {
            DeviceType::DfsFileSystem
        } else if code == 0x36 {
            DeviceType::DfsVolume
        } else if code == 0x37 {
            DeviceType::Serenum
        } else if code == 0x38 {
            DeviceType::Termsrv
        } else if code == 0x39 {
            DeviceType::Ksec
        } else if code == 0x3A {
            DeviceType::Fips
        } else {
            DeviceType::Unknown
        }
    }

    /// Encodes the device kind as its numeric code.
    pub fn to_code(self) -> (code: u32)
        ensures
            code == self.spec_to_code(),
    {
        match self {
            DeviceType::Beep => 0x01,
            DeviceType::Cdrom => 0x02,
            DeviceType::CdromFileSystem => 0x03,
            DeviceType::Controller => 0x04,
            DeviceType::DataLink => 0x05,
            DeviceType::Dfs => 0x06,
            DeviceType::Disk => 0x07,
            DeviceType::DiskFileSystem => 0x08,
            DeviceType::FileSystem => 0x09,
            DeviceType::InportPort => 0x0A,
            DeviceType::Keyboard => 0x0B,
            DeviceType::Mailslot => 0x0C,
            DeviceType::MidiIn => 0x0D,
            DeviceType::MidiOut => 0x0E,
            DeviceType::Mouse => 0x0F,
            DeviceType::MultiUncProvider => 0x10,
            DeviceType::NamedPipe => 0x11,
            DeviceType::Network => 0x12,
            DeviceType::NetworkBrowser => 0x13,
            DeviceType::NetworkFileSystem => 0x14,
            DeviceType::Null => 0x15,
            DeviceType::ParallelPort => 0x16,
            DeviceType::PhysicalNetcard => 0x17,
            DeviceType::Printer => 0x18,
            DeviceType::Scanner => 0x19,
            DeviceType::SerialMousePort => 0x1A,
            DeviceType::SerialPort => 0x1B,
            DeviceType::Screen => 0x1C,
            DeviceType::Sound => 0x1D,
            DeviceType::Streams => 0x1E,
            DeviceType::Tape => 0x1F,
            DeviceType::TapeFileSystem => 0x20,
            DeviceType::Transport => 0x21,
            DeviceType::Unknown => 0x22,
            DeviceType::Video => 0x23,
            DeviceType::VirtualDisk => 0x24,
            DeviceType::WaveIn => 0x25,
            DeviceType::WaveOut => 0x26,
            DeviceType::Port8042 => 0x27,
            DeviceType::NetworkRedirector => 0x28,
            DeviceType::Battery => 0x29,
            DeviceType::BusExtender => 0x2A,
            DeviceType::Modem => 0x2B,
            DeviceType::Vdm => 0x2C,
            DeviceType::MassStorage => 0x2D,
            DeviceType::Smb => 0x2E,
            DeviceType::Ks => 0x2F,
            DeviceType::Changer => 0x30,
            DeviceType::Smartcard => 0x31,
            DeviceType::Acpi => 0x32,
            DeviceType::Dvd => 0x33,
            DeviceType::FullscreenVideo => 0x34,
            DeviceType::DfsFileSystem => 0x35,
            DeviceType::DfsVolume => 0x36,
            DeviceType::Serenum => 0x37,
            DeviceType::Termsrv => 0x38,
            DeviceType::Ksec => 0x39,
            DeviceType::Fips => 0x3A,
        }
    }

    /// Decodes a numeric code to its device kind; an unassigned code
    /// decodes to `Unknown`.
    pub fn from_code(code: u32) -> (t: DeviceType)
        ensures
            t == DeviceType::spec_from_code(code),
    {
        if code == 0x01 {
            DeviceType::Beep
        } else if code == 0x02 {
            DeviceType::Cdrom
        } else if code == 0x03 {
            DeviceType::CdromFileSystem
        } else if code == 0x04 {
            DeviceType::Controller
        } else if code == 0x05 {
            DeviceType::DataLink
        } else if code == 0x06 {
            DeviceType::Dfs
        } else if code == 0x07 {
            DeviceType::Disk
        } else if code == 0x08 {
            DeviceType::DiskFileSystem
        } else if code == 0x09 {
            DeviceType::FileSystem
        } else if code == 0x0A {
            DeviceType::InportPort
        } else if code == 0x0B {
            DeviceType::Keyboard
        } else if code == 0x0C {
            DeviceType::Mailslot
        } else if code == 0x0D {
            DeviceType::MidiIn
        } else if code == 0x0E {
            DeviceType::MidiOut
        } else if code == 0x0F {
            DeviceType::Mouse
        } else if code == 0x10 {
            DeviceType::MultiUncProvider
        } else if code == 0x11 {
            DeviceType::NamedPipe
        } else if code == 0x12 {
            DeviceType::Network
        } else if code == 0x13 {
            DeviceType::NetworkBrowser
        } else if code == 0x14 {
            DeviceType::NetworkFileSystem
        } else if code == 0x15 {
            DeviceType::Null
        } else if code == 0x16 {
            DeviceType::ParallelPort
        } else if code == 0x17 {
            DeviceType::PhysicalNetcard
        } else if code == 0x18 {
            DeviceType::Printer
        } else if code == 0x19 {
            DeviceType::Scanner
        } else if code == 0x1A {
            DeviceType::SerialMousePort
        } else if code == 0x1B {
            DeviceType::SerialPort
        } else if code == 0x1C {
            DeviceType::Screen
        } else if code == 0x1D {
            DeviceType::Sound
        } else if code == 0x1E {
            DeviceType::Streams
        } else if code == 0x1F {
            DeviceType::Tape
        } else if code == 0x20 {
            DeviceType::TapeFileSystem
        } else if code == 0x21 {
            DeviceType::Transport
        } else if code == 0x22 {
            DeviceType::Unknown
        } else if code == 0x23 {
            DeviceType::Video
        } else if code == 0x24 {
            DeviceType::VirtualDisk
        } else if code == 0x25 {
            DeviceType::WaveIn
        } else if code == 0x26 {
            DeviceType::WaveOut
        } else if code == 0x27 {
            DeviceType::Port8042
        } else if code == 0x28 {
            DeviceType::NetworkRedirector
        } else if code == 0x29 {
            DeviceType::Battery
        } else if code == 0x2A {
            DeviceType::BusExtender
        } else if code == 0x2B {
            DeviceType::Modem
        } else if code == 0x2C {
            DeviceType::Vdm
        } else if code == 0x2D {
            DeviceType::MassStorage
        } else if code == 0x2E {
            DeviceType::Smb
        } else if code == 0x2F {
            DeviceType::Ks
        } else if code == 0x30 {
            DeviceType::Changer
        } else if code == 0x31 {
            DeviceType::Smartcard
        } else if code == 0x32 {
            DeviceType::Acpi
        } else if code == 0x33 {
            DeviceType::Dvd
        } else if code == 0x34 {
            DeviceType::FullscreenVideo
        } else if code == 0x35 {
            DeviceType::DfsFileSystem
        } else if code == 0x36 {
            DeviceType::DfsVolume
        } else if code == 0x37 {
            DeviceType::Serenum
        } else if code == 0x38 {
            DeviceType::Termsrv
        } else if code == 0x39 {
            DeviceType::Ksec
        } else if code == 0x3A {
            DeviceType::Fips
        } else {
            DeviceType::Unknown
        }
    }
}

/// Every device kind decodes back from its own code: encoding loses
/// nothing.
pub proof fn lemma_device_type_round_trip(t: DeviceType)
    ensures
        DeviceType::spec_from_code(t.spec_to_code()) == t,
{
}

/// The classified kind of an arriving major operation code.
#[derive(Copy, Clone, Debug, PartialEq, Eq, Structural)]
pub enum MajorFunction {
    Create,
    Close,
    Cleanup,
    Read,
    Write,
    DeviceControl,
    Unrecognized,
}

/// Maps a major operation code to its classification; everything outside
/// the recognized set is `Unrecognized`.
pub open spec fn spec_classify(major: u8) -> MajorFunction {
    if major == IRP_MJ_CREATE {
        MajorFunction::Create
    } else if major == IRP_MJ_CLOSE {
        MajorFunction::Close
    } else if major == IRP_MJ_CLEANUP {
        MajorFunction::Cleanup
    } else if major == IRP_MJ_READ {
        MajorFunction::Read
    } else if major == IRP_MJ_WRITE {
        MajorFunction::Write
    } else if major == IRP_MJ_DEVICE_CONTROL {
        MajorFunction::DeviceControl
    } else {
        MajorFunction::Unrecognized
    }
}

/// A handler's successful outcome: the transferred byte count and the
/// request to complete.
pub enum Completion {
    Complete(u32, IoRequest),
}

/// A handler's failure: the error to report and the request to complete.
pub struct RequestError(pub ErrorKind, pub IoRequest);

/// The mathematical content of a handler's outcome.
pub open spec fn spec_outcome(r: Result<Completion, RequestError>) -> Result<
    (u32, IoRequestView),
    (ErrorKind, IoRequestView),
> {
    match r {
        Ok(c) => match c {
            Completion::Complete(n, q) => Ok((n, q@)),
        },
        Err(e) => Err((e.0, e.1@)),
    }
}

/// The completion record that reports a handler outcome: a success carries
/// its byte count under `Success`, a failure zero bytes under the status its
/// error maps to; either way the buffer of the returned request travels
/// back.
pub open spec fn spec_completed(
    done: CompletedRequest,
    out: Result<(u32, IoRequestView), (ErrorKind, IoRequestView)>,
) -> bool {
    match out {
        Ok(nq) => done.bytes_transferred == nq.0 && done.status == Status::Success && done.data@
            == nq.1.data,
        Err(eq) => done.bytes_transferred == 0 && done.status == eq.0.status_spec() && done.data@
            == eq.1.data,
    }
}

/// One dispatch step of a handler model: the handler state moved to `post`
/// and the completion record reports the model's outcome.
pub open spec fn spec_handled<T>(
    step: (T, Result<(u32, IoRequestView), (ErrorKind, IoRequestView)>),
    post: T,
    done: CompletedRequest,
) -> bool {
    post == step.0 && spec_completed(done, step.1)
}

/// The capability set a concrete device implements.
///
/// Each operation has a mathematical model (`*_spec`) that the executable
/// method is held to; the defaults succeed without doing anything, reporting
/// zero bytes transferred.
pub trait DeviceOperations: Sized {
    /// Model of `create`.
    open spec fn create_spec(pre: Self, device_type: DeviceType, req: IoRequestView) -> (
        Self,
        Result<(u32, IoRequestView), (ErrorKind, IoRequestView)>,
    ) {
        (pre, Ok((0, req)))
    }

    /// Model of `close`.
    open spec fn close_spec(pre: Self, device_type: DeviceType, req: IoRequestView) -> (
        Self,
        Result<(u32, IoRequestView), (ErrorKind, IoRequestView)>,
    ) {
        (pre, Ok((0, req)))
    }

    /// Model of `cleanup`.
    open spec fn cleanup_spec(pre: Self, device_type: DeviceType, req: IoRequestView) -> (
        Self,
        Result<(u32, IoRequestView), (ErrorKind, IoRequestView)>,
    ) {
        (pre, Ok((0, req)))
    }

    /// Model of `read`.
    open spec fn read_spec(pre: Self, device_type: DeviceType, req: IoRequestView) -> (
        Self,
        Result<(u32, IoRequestView), (ErrorKind, IoRequestView)>,
    ) {
        (pre, Ok((0, req)))
    }

    /// Model of `write`.
    open spec fn write_spec(pre: Self, device_type: DeviceType, req: IoRequestView) -> (
        Self,
        Result<(u32, IoRequestView), (ErrorKind, IoRequestView)>,
    ) {
        (pre, Ok((0, req)))
    }

    /// Model of `ioctl`.
    open spec fn ioctl_spec(pre: Self, device_type: DeviceType, req: IoRequestView) -> (
        Self,
        Result<(u32, IoRequestView), (ErrorKind, IoRequestView)>,
    ) {
        (pre, Ok((0, req)))
    }

    /// Handles the opening of a handle on the device.
    fn create(&mut self, device_type: DeviceType, request: IoRequest) -> (r: Result<
        Completion,
        RequestError,
    >)
        ensures
            Self::create_spec(*old(self), device_type, request@) == (*final(self), spec_outcome(r)),
    ;

    /// Handles the closing of the last handle reference.
    fn close(&mut self, device_type: DeviceType, request: IoRequest) -> (r: Result<
        Completion,
        RequestError,
    >)
        ensures
            Self::close_spec(*old(self), device_type, request@) == (*final(self), spec_outcome(r)),
    ;

    /// Handles the cleanup of a handle's pending work.
    fn cleanup(&mut self, device_type: DeviceType, request: IoRequest) -> (r: Result<
        Completion,
        RequestError,
    >)
        ensures
            Self::cleanup_spec(*old(self), device_type, request@) == (
                *final(self),
                spec_outcome(r),
            ),
    ;

    /// Handles a positioned read.
    fn read(&mut self, device_type: DeviceType, request: ReadRequest) -> (r: Result<
        Completion,
        RequestError,
    >)
        ensures
            Self::read_spec(*old(self), device_type, request@) == (*final(self), spec_outcome(r)),
    ;

    /// Handles a positioned write.
    fn write(&mut self, device_type: DeviceType, request: WriteRequest) -> (r: Result<
        Completion,
        RequestError,
    >)
        ensures
            Self::write_spec(*old(self), device_type, request@) == (*final(self), spec_outcome(r)),
    ;

    /// Handles a device-control operation.
    fn ioctl(&mut self, device_type: DeviceType, request: IoControlRequest) -> (r: Result<
        Completion,
        RequestError,
    >)
        ensures
            Self::ioctl_spec(*old(self), device_type, request@) == (*final(self), spec_outcome(r)),
    ;
}

/// A created device: its kind, flags, name, and the exclusively owned
/// handler state, together with the pool allocation standing for the
/// device's extension record.
pub struct Device<T: DeviceOperations> {
    pub(crate) device_type: DeviceType,
    pub(crate) flags: u32,
    pub(crate) do_flags: u32,
    pub(crate) data: ExclusiveBox<T>,
    pub(crate) record_ptr: RawPtr,
}

impl<T: DeviceOperations> Device<T> {
    /// The device's kind.
    pub closed spec fn device_type_spec(self) -> DeviceType {
        self.device_type
    }

    /// The device's flags.
    pub closed spec fn flags_spec(self) -> u32 {
        self.flags
    }

    /// The device's I/O characteristics.
    pub closed spec fn do_flags_spec(self) -> u32 {
        self.do_flags
    }

    /// The handler state owned by the device.
    pub closed spec fn data_spec(self) -> T {
        self.data.value_spec()
    }

    /// The box holding the handler state.
    pub closed spec fn data_box_spec(self) -> ExclusiveBox<T> {
        self.data
    }

    /// The allocation standing for the device's extension record.
    pub closed spec fn record_ptr_spec(self) -> RawPtr {
        self.record_ptr
    }

    /// Well-formedness against the pool: the handler state's box and the
    /// extension record are live, matching, distinct allocations.
    pub open spec fn wf(self, pool: crate::pool::TaggedPool) -> bool {
        &&& self.data_box_spec().backed_by(pool)
        &&& pool.is_live(self.record_ptr_spec())
        &&& pool.record(self.record_ptr_spec()).tag == DEVICE_TAG
        &&& pool.record(self.record_ptr_spec()).size == vstd::layout::size_of::<DeviceRecord>()
        &&& self.record_ptr_spec().addr != self.data_box_spec().ptr_spec().addr
    }

    /// Builds the typed device from its parts; the lifecycle manager's
    /// assembly step.
    pub(crate) fn assemble(
        device_type: DeviceType,
        flags: u32,
        do_flags: u32,
        data: ExclusiveBox<T>,
        record_ptr: RawPtr,
    ) -> (d: Device<T>)
        ensures
            d.device_type_spec() == device_type,
            d.flags_spec() == flags,
            d.do_flags_spec() == do_flags,
            d.data_box_spec() == data,
            d.data_spec() == data.value_spec(),
            d.record_ptr_spec() == record_ptr,
    {
        Device { device_type, flags, do_flags, data, record_ptr }
    }

    /// Takes the device apart into the box holding its handler state and
    /// the extension record's allocation; the teardown's first step.
    pub(crate) fn disassemble(self) -> (r: (ExclusiveBox<T>, RawPtr))
        ensures
            r.0 == self.data_box_spec(),
            r.0.value_spec() == self.data_spec(),
            r.1 == self.record_ptr_spec(),
    {
        let Device { device_type: _, flags: _, do_flags: _, data, record_ptr } = self;
        (data, record_ptr)
    }

    /// The device's kind.
    pub fn device_type(&self) -> (t: DeviceType)
        ensures
            t == self.device_type_spec(),
    {
        self.device_type
    }

    /// Shared access to the handler state.
    pub fn data(&self) -> (d: &T)
        ensures
            *d == self.data_spec(),
    {
        self.data.value()
    }

    /// Exclusive access to the handler state.
    pub fn data_mut(&mut self) -> (d: &mut T)
        ensures
            *d == old(self).data_spec(),
            final(self).data_spec() == *final(d),
            final(self).device_type_spec() == old(self).device_type_spec(),
            final(self).flags_spec() == old(self).flags_spec(),
            final(self).do_flags_spec() == old(self).do_flags_spec(),
            final(self).record_ptr_spec() == old(self).record_ptr_spec(),
            final(self).data_box_spec().tag_spec() == old(self).data_box_spec().tag_spec(),
            final(self).data_box_spec().ptr_spec() == old(self).data_box_spec().ptr_spec(),
    {
        self.data.value_mut()
    }
}

/// The dispatch engine's single step.
///
/// The major code is classified; the request is narrowed to the view of
/// that class and routed to the device's handler; a device-control request
/// whose encoded kind differs from the device's own short-circuits to
/// `InvalidParameter` without the handler running, as does every
/// unrecognized major code.  Exactly one completion is produced, reporting
/// the handler's outcome.
pub fn dispatch_device<T: DeviceOperations>(
    device: &mut Device<T>,
    request: IoRequest,
    major: u8,
) -> (done: CompletedRequest)
    ensures
        final(device).device_type_spec() == old(device).device_type_spec(),
        final(device).flags_spec() == old(device).flags_spec(),
        final(device).do_flags_spec() == old(device).do_flags_spec(),
        final(device).record_ptr_spec() == old(device).record_ptr_spec(),
        final(device).data_box_spec().tag_spec() == old(device).data_box_spec().tag_spec(),
        final(device).data_box_spec().ptr_spec() == old(device).data_box_spec().ptr_spec(),
        ({
            let m = spec_classify(major);
            let dt = old(device).device_type_spec();
            let pre = old(device).data_spec();
            let post = final(device).data_spec();
            &&& (m == MajorFunction::Unrecognized ==> post == pre && done.bytes_transferred == 0
                && done.status == Status::InvalidParameter && done.data@ == request@.data)
            &&& (m == MajorFunction::DeviceControl && ControlCode(
                request@.control,
            ).device_type_spec() != dt ==> post == pre && done.bytes_transferred == 0
                && done.status == Status::InvalidParameter && done.data@ == request@.data)
            &&& (m == MajorFunction::Create ==> spec_handled(
                T::create_spec(pre, dt, request@),
                post,
                done,
            ))
            &&& (m == MajorFunction::Close ==> spec_handled(
                T::close_spec(pre, dt, request@),
                post,
                done,
            ))
            &&& (m == MajorFunction::Cleanup ==> spec_handled(
                T::cleanup_spec(pre, dt, request@),
                post,
                done,
            ))
            &&& (m == MajorFunction::Read ==> spec_handled(
                T::read_spec(pre, dt, request@),
                post,
                done,
            ))
            &&& (m == MajorFunction::Write ==> spec_handled(
                T::write_spec(pre, dt, request@),
                post,
                done,
            ))
            &&& (m == MajorFunction::DeviceControl && ControlCode(
                request@.control,
            ).device_type_spec() == dt ==> spec_handled(
                T::ioctl_spec(pre, dt, request@),
                post,
                done,
            ))
        }),
{
    let dt = device.device_type();
    let result = if major == IRP_MJ_CREATE {
        device.data_mut().create(dt, request)
    } else if major == IRP_MJ_CLOSE {
        device.data_mut().close(dt, request)
    } else if major == IRP_MJ_CLEANUP {
        device.data_mut().cleanup(dt, request)
    } else if major == IRP_MJ_READ {
        device.data_mut().read(dt, ReadRequest::wrap(request))
    } else if major == IRP_MJ_WRITE {
        device.data_mut().write(dt, WriteRequest::wrap(request))
    } else if major == IRP_MJ_DEVICE_CONTROL {
        let control = IoControlRequest::wrap(request);
        if dt == control.control_code().device_type() {
            device.data_mut().ioctl(dt, control)
        } else {
            Err(RequestError(ErrorKind::InvalidParameter, control.into_request()))
        }
    } else {
        Err(RequestError(ErrorKind::InvalidParameter, request))
    };
    let ghost out = spec_outcome(result);
    let done = match result {
        Ok(c) => match c {
            Completion::Complete(n, q) => q.complete(Ok(n)),
        },
        Err(e) => {
            let RequestError(kind, q) = e;
            q.complete(Err(kind))
        },
    };
    proof {
        assert(spec_completed(done, out));
    }
    done
}

} // verus!
