//! The device lifecycle manager.
//!
//! `create_device` builds a complete device or nothing: it boxes the
//! caller's handler state, asks the modeled runtime for the device's
//! extension record, and wires kind and flags into the typed [`Device`].  A
//! failure at either allocation step releases whatever was taken, so no
//! partial device is ever left behind.  `delete_device` is the teardown:
//! it reclaims the erased handler state — handing it back to the caller,
//! whose drop of it stands for the destructor — and releases the record.

use vstd::layout::size_of;
use vstd::prelude::*;

use crate::device::{
    Access, Device, DeviceDoFlags, DeviceFlags, DeviceOperations, DeviceRecord, DeviceType,
    DEVICE_TAG,
};
use crate::error::ErrorKind;
use crate::owned::ExclusiveBox;
use crate::pool::{AllocView, PoolType, TaggedPool};
use crate::strings::UnicodeString;

verus! {

/// The driver: the owner on whose behalf devices are created.
pub struct Driver {
    devices_created: u64,
}

impl Driver {
    /// How many devices this driver has created.
    pub closed spec fn devices_created_spec(self) -> u64 {
        self.devices_created
    }

    /// A driver that has created no devices yet.
    pub fn new() -> (d: Driver)
        ensures
            d.devices_created_spec() == 0,
    {
        Driver { devices_created: 0 }
    }

    /// Creates a device owning `data` as its handler state.
    ///
    /// The state is boxed from the non-paged pool, the extension record
    /// allocated next to it; the name is registered with the external
    /// namespace and not recorded here.  Fails with `AllocationFailure`
    /// exactly when the pool's budget cannot cover both allocations — and
    /// then nothing stays allocated: no partial device is left registered.
    pub fn create_device<T: DeviceOperations>(
        &mut self,
        _name: &UnicodeString,
        device_type: DeviceType,
        device_flags: DeviceFlags,
        device_do_flags: DeviceDoFlags,
        _access: Access,
        data: T,
        pool: &mut TaggedPool,
    ) -> (r: Result<Device<T>, ErrorKind>)
        requires
            old(pool).wf(),
            old(self).devices_created_spec() < u64::MAX,
        ensures
            final(pool).wf(),
            final(pool).limit_spec() == old(pool).limit_spec(),
            r is Ok <==> old(pool).in_use_spec() + size_of::<T>() + size_of::<DeviceRecord>()
                <= old(pool).limit_spec(),
            match r {
                Ok(d) => {
                    &&& d.device_type_spec() == device_type
                    &&& d.flags_spec() == device_flags.bits
                    &&& d.do_flags_spec() == device_do_flags.bits
                    &&& d.data_spec() == data
                    &&& d.wf(*final(pool))
                    &&& final(self).devices_created_spec() == old(self).devices_created_spec()
                        + 1
                    &&& final(pool)@ =~= old(pool)@.push(
                        AllocView {
                            size: size_of::<T>(),
                            tag: DEVICE_TAG,
                            kind: PoolType::NonPagedPool,
                            live: true,
                        },
                    ).push(
                        AllocView {
                            size: size_of::<DeviceRecord>(),
                            tag: DEVICE_TAG,
                            kind: PoolType::NonPagedPool,
                            live: true,
                        },
                    )
                },
                Err(e) => {
                    &&& e == ErrorKind::AllocationFailure
                    &&& *final(self) == *old(self)
                    &&& final(pool).in_use_spec() == old(pool).in_use_spec()
                    &&& final(pool)@.len() >= old(pool)@.len()
                    &&& forall|a: int|
                        0 <= a < old(pool)@.len() ==> final(pool)@[a] == old(pool)@[a]
                },
            },
    {
        // Box the handler state.
        let boxed = match ExclusiveBox::new(data, PoolType::NonPagedPool, DEVICE_TAG, pool) {
            Ok(b) => b,
            Err(_) => {
                return Err(ErrorKind::AllocationFailure);
            },
        };
        // Ask the runtime for the device handle's extension record.
        let record_ptr = match pool.allocate(
            core::mem::size_of::<DeviceRecord>(),
            DEVICE_TAG,
            PoolType::NonPagedPool,
        ) {
            Some(p) => p,
            None => {
                proof {
                    assert(pool@.drop_last() =~= old(pool)@);
                }
                boxed.destroy(pool);
                proof {
                    assert(forall|a: int|
                        0 <= a < old(pool)@.len() ==> final(pool)@[a] == old(pool)@[a]);
                }
                return Err(ErrorKind::AllocationFailure);
            },
        };
        proof {
            assert(pool@.drop_last().drop_last() =~= old(pool)@);
            assert(pool@.drop_last() =~= old(pool)@.push(
                AllocView {
                    size: size_of::<T>(),
                    tag: DEVICE_TAG,
                    kind: PoolType::NonPagedPool,
                    live: true,
                },
            ));
        }
        self.devices_created = self.devices_created + 1;
        Ok(Device::assemble(device_type, device_flags.bits, device_do_flags.bits, boxed, record_ptr))
    }
}

/// Tears a device down: reclaims the erased handler state — returned to the
/// caller, whose drop of it stands for the in-place destructor — and
/// releases the extension record, each exactly once.
pub fn delete_device<T: DeviceOperations>(device: Device<T>, pool: &mut TaggedPool) -> (data: T)
    requires
        old(pool).wf(),
        device.wf(*old(pool)),
    ensures
        final(pool).wf(),
        final(pool).limit_spec() == old(pool).limit_spec(),
        data == device.data_spec(),
        final(pool)@ =~= old(pool)@.update(
            device.data_box_spec().ptr_spec().addr as int,
            AllocView { live: false, ..old(pool).record(device.data_box_spec().ptr_spec()) },
        ).update(
            device.record_ptr_spec().addr as int,
            AllocView { live: false, ..old(pool).record(device.record_ptr_spec()) },
        ),
        final(pool).in_use_spec() == old(pool).in_use_spec() - size_of::<T>() - size_of::<
            DeviceRecord,
        >(),
{
    let (data, record_ptr) = device.disassemble();
    let value = data.destroy(pool);
    pool.free(record_ptr, DEVICE_TAG);
    value
}

} // verus!
