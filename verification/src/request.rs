//! Typed views over one externally-originated request.
//!
//! An [`IoRequest`] stands for the opaque request handle the external
//! runtime hands in: it carries the caller-supplied buffer, the positioned
//! operation's offset, and the device-control code.  The specialized views
//! ([`ReadRequest`], [`WriteRequest`], [`IoControlRequest`]) are the same
//! handle narrowed to the operations valid for one major code; conversion
//! back to the generic view loses nothing.  Completion is linear: a request
//! is completed exactly once, by value, yielding the transferred byte count
//! and status the external caller receives, together with the buffer.

use vstd::prelude::*;

use crate::device::DeviceType;
use crate::error::{ErrorKind, Status};

verus! {

/// Mathematical content of a request: the bytes of the caller's buffer, the
/// offset, and the raw control code.
pub struct IoRequestView {
    pub data: Seq<u8>,
    pub offset: u64,
    pub control: u32,
}

/// The generic view over one external request handle.
pub struct IoRequest {
    data: Vec<u8>,
    offset: u64,
    control: u32,
}

impl View for IoRequest {
    type V = IoRequestView;

    closed spec fn view(&self) -> IoRequestView {
        IoRequestView { data: self.data@, offset: self.offset, control: self.control }
    }
}

/// What a completed request reports back to the external caller: the byte
/// count, the status code, and the buffer as the handler left it.
pub struct CompletedRequest {
    pub bytes_transferred: u32,
    pub status: Status,
    pub data: Vec<u8>,
}

impl IoRequest {
    /// Wraps an arriving request: the caller's buffer, the operation's
    /// offset, and the raw device-control code.
    pub fn new(data: Vec<u8>, offset: u64, control: u32) -> (r: IoRequest)
        ensures
            r@.data == data@,
            r@.offset == offset,
            r@.control == control,
    {
        IoRequest { data, offset, control }
    }

    /// Length of the caller's buffer as externally reported.
    pub fn user_len(&self) -> (n: usize)
        ensures
            n == self@.data.len(),
    {
        self.data.len()
    }

    /// The positioned operation's offset.
    pub fn offset(&self) -> (o: u64)
        ensures
            o == self@.offset,
    {
        self.offset
    }

    /// Reads `len` bytes of the caller's buffer starting at `pos`; fails
    /// with `UserAccessFailure` exactly when the range exceeds the reported
    /// length.
    pub fn read_user(&self, pos: usize, len: usize) -> (r: Result<Vec<u8>, ErrorKind>)
        ensures
            r is Ok <==> pos + len <= self@.data.len(),
            match r {
                Ok(v) => v@ =~= self@.data.subrange(pos as int, pos + len),
                Err(e) => e == ErrorKind::UserAccessFailure,
            },
    {
        if len > self.data.len() || pos > self.data.len() - len {
            return Err(ErrorKind::UserAccessFailure);
        }
        let mut v: Vec<u8> = Vec::new();
        let mut i: usize = 0;
        while i < len
            invariant
                i <= len,
                pos + len <= self@.data.len(),
                pos + len <= usize::MAX,
                v@ =~= self@.data.subrange(pos as int, pos + i),
            decreases len - i,
        {
            v.push(self.data[pos + i]);
            proof {
                assert(v@ =~= self@.data.subrange(pos as int, pos + i + 1));
            }
            i = i + 1;
        }
        Ok(v)
    }

    /// Overwrites the caller's buffer at `pos` with `src`; fails with
    /// `UserAccessFailure` exactly when the range exceeds the reported
    /// length, leaving the buffer untouched.
    pub fn write_user(&mut self, pos: usize, src: &[u8]) -> (r: Result<(), ErrorKind>)
        ensures
            final(self)@.offset == old(self)@.offset,
            final(self)@.control == old(self)@.control,
            r is Ok <==> pos + src@.len() <= old(self)@.data.len(),
            match r {
                Ok(u) => final(self)@.data =~= old(self)@.data.take(pos as int) + src@ + old(
                    self,
                )@.data.skip(pos + src@.len()),
                Err(e) => e == ErrorKind::UserAccessFailure && final(self)@.data =~= old(
                    self,
                )@.data,
            },
    {
        let len = src.len();
        if len > self.data.len() || pos > self.data.len() - len {
            return Err(ErrorKind::UserAccessFailure);
        }
        let mut i: usize = 0;
        while i < len
            invariant
                i <= len,
                len == src@.len(),
                pos + len <= self@.data.len(),
                pos + len <= usize::MAX,
                self@.data.len() == old(self)@.data.len(),
                self@.offset == old(self)@.offset,
                self@.control == old(self)@.control,
                self@.data =~= old(self)@.data.take(pos as int) + src@.take(i as int) + old(
                    self,
                )@.data.skip(pos + i),
            decreases len - i,
        {
            proof {
                assert(old(self)@.data.skip(pos + i).drop_first() =~= old(self)@.data.skip(
                    pos + i + 1,
                ));
            }
            self.data[pos + i] = src[i];
            proof {
                assert(self@.data =~= old(self)@.data.take(pos as int) + src@.take(i + 1 as int)
                    + old(self)@.data.skip(pos + i + 1));
            }
            i = i + 1;
        }
        proof {
            assert(src@.take(len as int) =~= src@);
        }
        Ok(())
    }

    /// Completes the request exactly once: a success reports the transferred
    /// byte count under `Success`, a failure reports zero bytes under the
    /// status its error maps to.  The buffer travels back to the caller.
    pub fn complete(self, result: Result<u32, ErrorKind>) -> (done: CompletedRequest)
        ensures
            done.data@ == self@.data,
            match result {
                Ok(n) => done.bytes_transferred == n && done.status == Status::Success,
                Err(e) => done.bytes_transferred == 0 && done.status == e.status_spec(),
            },
    {
        match result {
            Ok(n) => CompletedRequest { bytes_transferred: n, status: Status::Success, data: self.data },
            Err(e) => CompletedRequest {
                bytes_transferred: 0,
                status: e.to_status(),
                data: self.data,
            },
        }
    }
}

/// Access the operation requires on the device, as encoded in a control
/// code.
#[derive(Clone, Copy, Debug, PartialEq, Eq, Structural)]
pub enum RequiredAccess {
    Any,
    Read,
    Write,
    ReadWrite,
}

/// A device-control code: device kind in the high half, required access,
/// function number and transfer method packed below it.
#[derive(Clone, Copy, Debug, PartialEq, Eq, Structural)]
pub struct ControlCode(pub u32);

impl ControlCode {
    /// The device kind encoded in bits 16 to 31.
    pub open spec fn device_type_spec(self) -> DeviceType {
        DeviceType::spec_from_code(self.0 >> 16)
    }

    /// The required access encoded in bits 14 and 15.
    pub open spec fn required_access_spec(self) -> RequiredAccess {
        if (self.0 >> 14) & 3 == 0 {
            RequiredAccess::Any
        } else if (self.0 >> 14) & 3 == 1 {
            RequiredAccess::Read
        } else if (self.0 >> 14) & 3 == 2 {
            RequiredAccess::Write
        } else {
            RequiredAccess::ReadWrite
        }
    }

    /// The function number encoded in bits 2 to 13.
    pub open spec fn function_code_spec(self) -> u32 {
        (self.0 >> 2) & 0xFFF
    }

    /// The device kind the control code addresses.
    pub fn device_type(self) -> (t: DeviceType)
        ensures
            t == self.device_type_spec(),
    {
        DeviceType::from_code(self.0 >> 16)
    }

    /// The access-requirement/function pair, as the specialized view hands
    /// it to handlers.
    pub fn function(self) -> (r: (RequiredAccess, u32))
        ensures
            r.0 == self.required_access_spec(),
            r.1 == self.function_code_spec(),
    {
        let bits = (self.0 >> 14) & 3;
        let access = if bits == 0 {
            RequiredAccess::Any
        } else if bits == 1 {
            RequiredAccess::Read
        } else if bits == 2 {
            RequiredAccess::Write
        } else {
            RequiredAccess::ReadWrite
        };
        (access, (self.0 >> 2) & 0xFFF)
    }
}

/// The request narrowed to a read: the handler fills the caller's buffer.
pub struct ReadRequest {
    pub(crate) inner: IoRequest,
}

impl View for ReadRequest {
    type V = IoRequestView;

    closed spec fn view(&self) -> IoRequestView {
        self.inner@
    }
}

impl ReadRequest {
    /// Narrows a generic request to this view; the engine's step of
    /// constructing the typed wrapper.
    pub(crate) fn wrap(inner: IoRequest) -> (r: ReadRequest)
        ensures
            r@ == inner@,
    {
        ReadRequest { inner }
    }

    /// The read's starting offset.
    pub fn offset(&self) -> (o: u64)
        ensures
            o == self@.offset,
    {
        self.inner.offset()
    }

    /// Length of the caller's buffer.
    pub fn user_len(&self) -> (n: usize)
        ensures
            n == self@.data.len(),
    {
        self.inner.user_len()
    }

    /// Overwrites the caller's buffer at `pos` with `src`, bounds checked.
    pub fn write_user(&mut self, pos: usize, src: &[u8]) -> (r: Result<(), ErrorKind>)
        ensures
            final(self)@.offset == old(self)@.offset,
            final(self)@.control == old(self)@.control,
            r is Ok <==> pos + src@.len() <= old(self)@.data.len(),
            match r {
                Ok(u) => final(self)@.data =~= old(self)@.data.take(pos as int) + src@ + old(
                    self,
                )@.data.skip(pos + src@.len()),
                Err(e) => e == ErrorKind::UserAccessFailure && final(self)@.data =~= old(
                    self,
                )@.data,
            },
    {
        self.inner.write_user(pos, src)
    }

    /// Widens the view back to the generic request, losing nothing.
    pub fn into_request(self) -> (r: IoRequest)
        ensures
            r@ == self@,
    {
        self.inner
    }
}

/// The request narrowed to a write: the handler reads the caller's buffer.
pub struct WriteRequest {
    pub(crate) inner: IoRequest,
}

impl View for WriteRequest {
    type V = IoRequestView;

    closed spec fn view(&self) -> IoRequestView {
        self.inner@
    }
}

impl WriteRequest {
    /// Narrows a generic request to this view; the engine's step of
    /// constructing the typed wrapper.
    pub(crate) fn wrap(inner: IoRequest) -> (r: WriteRequest)
        ensures
            r@ == inner@,
    {
        WriteRequest { inner }
    }

    /// The write's starting offset.
    pub fn offset(&self) -> (o: u64)
        ensures
            o == self@.offset,
    {
        self.inner.offset()
    }

    /// Length of the caller's buffer.
    pub fn user_len(&self) -> (n: usize)
        ensures
            n == self@.data.len(),
    {
        self.inner.user_len()
    }

    /// Reads `len` bytes of the caller's buffer starting at `pos`, bounds
    /// checked.
    pub fn read_user(&self, pos: usize, len: usize) -> (r: Result<Vec<u8>, ErrorKind>)
        ensures
            r is Ok <==> pos + len <= self@.data.len(),
            match r {
                Ok(v) => v@ =~= self@.data.subrange(pos as int, pos + len),
                Err(e) => e == ErrorKind::UserAccessFailure,
            },
    {
        self.inner.read_user(pos, len)
    }

    /// Widens the view back to the generic request, losing nothing.
    pub fn into_request(self) -> (r: IoRequest)
        ensures
            r@ == self@,
    {
        self.inner
    }
}

/// The request narrowed to a device-control operation.
pub struct IoControlRequest {
    pub(crate) inner: IoRequest,
}

impl View for IoControlRequest {
    type V = IoRequestView;

    closed spec fn view(&self) -> IoRequestView {
        self.inner@
    }
}

impl IoControlRequest {
    /// Narrows a generic request to this view; the engine's step of
    /// constructing the typed wrapper.
    pub(crate) fn wrap(inner: IoRequest) -> (r: IoControlRequest)
        ensures
            r@ == inner@,
    {
        IoControlRequest { inner }
    }

    /// The operation's control code.
    pub fn control_code(&self) -> (c: ControlCode)
        ensures
            c == ControlCode(self@.control),
    {
        ControlCode(self.inner.control)
    }

    /// Length of the caller's buffer.
    pub fn user_len(&self) -> (n: usize)
        ensures
            n == self@.data.len(),
    {
        self.inner.user_len()
    }

    /// Reads `len` bytes of the caller's buffer starting at `pos`, bounds
    /// checked.
    pub fn read_user(&self, pos: usize, len: usize) -> (r: Result<Vec<u8>, ErrorKind>)
        ensures
            r is Ok <==> pos + len <= self@.data.len(),
            match r {
                Ok(v) => v@ =~= self@.data.subrange(pos as int, pos + len),
                Err(e) => e == ErrorKind::UserAccessFailure,
            },
    {
        self.inner.read_user(pos, len)
    }

    /// Overwrites the caller's buffer at `pos` with `src`, bounds checked.
    pub fn write_user(&mut self, pos: usize, src: &[u8]) -> (r: Result<(), ErrorKind>)
        ensures
            final(self)@.offset == old(self)@.offset,
            final(self)@.control == old(self)@.control,
            r is Ok <==> pos + src@.len() <= old(self)@.data.len(),
            match r {
                Ok(u) => final(self)@.data =~= old(self)@.data.take(pos as int) + src@ + old(
                    self,
                )@.data.skip(pos + src@.len()),
                Err(e) => e == ErrorKind::UserAccessFailure && final(self)@.data =~= old(
                    self,
                )@.data,
            },
    {
        self.inner.write_user(pos, src)
    }

    /// Widens the view back to the generic request, losing nothing.
    pub fn into_request(self) -> (r: IoRequest)
        ensures
            r@ == self@,
    {
        self.inner
    }
}

} // verus!
