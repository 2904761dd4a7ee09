use vstd::prelude::*;

pub mod device_error;
pub mod usb_transport;

use crate::usb_transport::DeviceInfo;

verus! {

/// The device descriptors read during a bus scan, in scan order:
/// the candidates whose descriptor could be read, with the failed
/// reads left out.
pub open spec fn readable_devices(scan: Seq<Option<DeviceInfo>>) -> Seq<DeviceInfo>
    decreases scan.len(),
{
    if scan.len() == 0 {
        Seq::empty()
    } else {
        let rest = readable_devices(scan.drop_last());
        match scan.last() {
            Some(info) => rest.push(info),
            None => rest,
        }
    }
}

/// Collects the devices seen during a bus scan. Each element of `scan` is
/// one attached device: its descriptor, or `None` where the descriptor
/// read failed. A failed read excludes that device without aborting the
/// scan; the rest are returned in scan order, ready to be listed.
pub fn enumerate(scan: &Vec<Option<DeviceInfo>>) -> (devices: Vec<DeviceInfo>)
    ensures
        devices@ == readable_devices(scan@),
{
    let mut devices: Vec<DeviceInfo> = Vec::new();
    let mut i: usize = 0;
    while i < scan.len()
        invariant
            i <= scan@.len(),
            devices@ == readable_devices(scan@.take(i as int)),
        decreases scan@.len() - i,
    {
        proof {
            assert(scan@.take(i + 1).drop_last() =~= scan@.take(i as int));
            assert(scan@.take(i + 1).last() == scan@[i as int]);
        }
        match &scan[i] {
            Some(info) => devices.push(*info),
            None => {}
        }
        i += 1;
    }
    proof {
        assert(scan@.take(scan@.len() as int) =~= scan@);
    }
    devices
}

} // verus!
