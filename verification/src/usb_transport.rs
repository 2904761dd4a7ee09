use vstd::prelude::*;

use crate::device_error::DeviceError;

verus! {

/// The vendor ID of the supported device family.
pub const RIM_VENDOR: u16 = 0x0FCA;

/// The interface class code that marks the vendor's control interface.
pub const CONTROL_CLASS: u8 = 0xFF;

/// The interface protocol code that marks the vendor's control interface.
pub const CONTROL_PROTOCOL: u8 = 0xFF;

/// The expected inbound (device-to-host) bulk endpoint address.
pub const ENDPOINT_IN: u8 = 0x82;

/// The expected outbound (host-to-device) bulk endpoint address.
pub const ENDPOINT_OUT: u8 = 0x02;

/// The fixed, non-empty allow-list of acceptable product IDs.
/// Membership is exact: no masking or wildcarding.
pub open spec fn is_rim_product(product_id: u16) -> bool {
    product_id == 0x8004 || product_id == 0x8007
}

/// Exact membership test against the fixed product-ID allow-list.
pub fn product_id_allowed(product_id: u16) -> (r: bool)
    ensures
        r == is_rim_product(product_id),
{
    product_id == 0x8004 || product_id == 0x8007
}

/// What a device descriptor exposes to the discovery logic: identity on
/// the bus, and the vendor/product pair the match criterion reads.
#[derive(Clone, Copy, Debug, PartialEq, Eq, Structural)]
pub struct DeviceInfo {
    pub bus_number: u8,
    pub address: u8,
    pub vendor_id: u16,
    pub product_id: u16,
}

/// One interface descriptor (one alternate setting) of a configuration:
/// its interface number, its class and protocol codes, and the addresses
/// of its endpoint descriptors, in descriptor order.
#[derive(Debug)]
pub struct InterfaceDescriptorInfo {
    pub interface_number: u8,
    pub class_code: u8,
    pub protocol_code: u8,
    pub endpoint_addresses: Vec<u8>,
}

/// One interface of a configuration, with its (possibly multiple,
/// e.g. alternate-setting) descriptors in order.
#[derive(Debug)]
pub struct InterfaceInfo {
    pub descriptors: Vec<InterfaceDescriptorInfo>,
}

/// The active configuration of a device: its interfaces in order.
#[derive(Debug)]
pub struct ConfigInfo {
    pub interfaces: Vec<InterfaceInfo>,
}

/// By USB convention, bit 0x80 of an endpoint address marks the
/// device-to-host (inbound) direction.
pub open spec fn is_inbound_address(address: u8) -> bool {
    address & 0x80 == 0x80
}

/// The two fixed endpoint addresses are one inbound and one outbound,
/// as the data model requires.
pub proof fn lemma_fixed_endpoints_are_bidirectional()
    ensures
        is_inbound_address(ENDPOINT_IN),
        !is_inbound_address(ENDPOINT_OUT),
{
    assert(0x82u8 & 0x80 == 0x80) by (bit_vector);
    assert(0x02u8 & 0x80 == 0x00) by (bit_vector);
}

/// The match criterion: the device's vendor ID equals the fixed vendor ID
/// and its product ID is in the fixed allow-list.
pub open spec fn device_matches(info: DeviceInfo) -> bool {
    info.vendor_id == RIM_VENDOR && is_rim_product(info.product_id)
}

/// A scanned candidate is selected only if its descriptor could be read
/// and the descriptor matches the criterion. A device whose descriptor
/// read failed (`None`) is never a candidate, and never an error.
pub open spec fn candidate_matches(candidate: Option<DeviceInfo>) -> bool {
    candidate matches Some(info) && device_matches(info)
}

/// Everything the matcher promises of its result, over the scanned
/// candidates: `Ok(i)` names the first matching candidate, and an error
/// is `NoDeviceFound`, returned exactly when no candidate matches.
pub open spec fn matcher_outcome_holds(
    scan: Seq<Option<DeviceInfo>>,
    r: Result<usize, DeviceError>,
) -> bool {
    match r {
        Ok(i) => {
            &&& i < scan.len()
            &&& candidate_matches(scan[i as int])
            &&& forall|j: int| 0 <= j < i ==> !candidate_matches(scan[j])
        },
        Err(e) => {
            &&& e is NoDeviceFound
            &&& forall|j: int| 0 <= j < scan.len() ==> !candidate_matches(scan[j])
        },
    }
}

/// Finds the single device to open: the first candidate, in scan order,
/// with the proper vendor ID and a potential product ID. Candidates whose
/// descriptor could not be read arrive as `None` and are skipped silently.
/// When no candidate matches, the scan fails with `NoDeviceFound` — an
/// expected outcome, not a defect.
pub fn find_usb_device(scan: &Vec<Option<DeviceInfo>>) -> (r: Result<usize, DeviceError>)
    ensures
        matcher_outcome_holds(scan@, r),
{
    let mut i: usize = 0;
    while i < scan.len()
        invariant
            i <= scan@.len(),
            forall|j: int| 0 <= j < i ==> !candidate_matches(scan@[j]),
        decreases scan@.len() - i,
    {
        match &scan[i] {
            Some(info) => {
                if info.vendor_id == RIM_VENDOR && product_id_allowed(info.product_id) {
                    return Ok(i);
                }
            }
            None => {}
        }
        i += 1;
    }
    Err(DeviceError::NoDeviceFound)
}

/// The matcher selects a device if and only if some candidate matches the
/// criterion, and what it selects is itself a matching candidate.
pub proof fn lemma_matcher_selects_iff(scan: Seq<Option<DeviceInfo>>, r: Result<usize, DeviceError>)
    requires
        matcher_outcome_holds(scan, r),
    ensures
        (r is Ok) <==> (exists|j: int| 0 <= j < scan.len() && candidate_matches(scan[j])),
        r matches Ok(i) ==> candidate_matches(scan[i as int]),
{
    if r is Ok {
        let i = r->Ok_0;
        assert(0 <= i < scan.len() && candidate_matches(scan[i as int]));
    }
}

/// On an empty scan, or one whose candidates all fail the criterion,
/// the matcher fails with `NoDeviceFound`.
pub proof fn lemma_no_candidate_no_device(scan: Seq<Option<DeviceInfo>>, r: Result<usize, DeviceError>)
    requires
        forall|j: int| 0 <= j < scan.len() ==> !candidate_matches(scan[j]),
        matcher_outcome_holds(scan, r),
    ensures
        r is Err && r->Err_0 is NoDeviceFound,
{
}

/// A descriptor of the vendor's control interface: its class code and
/// protocol code both equal the fixed sentinel value.
pub open spec fn is_control_descriptor(desc: InterfaceDescriptorInfo) -> bool {
    desc.class_code == CONTROL_CLASS && desc.protocol_code == CONTROL_PROTOCOL
}

/// Both required bulk endpoint addresses — one inbound, one outbound —
/// are present among the descriptor's endpoints. The two checks are
/// independent of each other and of endpoint order.
pub open spec fn has_required_endpoints(desc: InterfaceDescriptorInfo) -> bool {
    desc.endpoint_addresses@.contains(ENDPOINT_IN) && desc.endpoint_addresses@.contains(
        ENDPOINT_OUT,
    )
}

/// The first control descriptor among one interface's descriptors,
/// in descriptor order.
pub open spec fn first_control_in_descriptors(
    descs: Seq<InterfaceDescriptorInfo>,
) -> Option<InterfaceDescriptorInfo>
    decreases descs.len(),
{
    if descs.len() == 0 {
        None
    } else if is_control_descriptor(descs[0]) {
        Some(descs[0])
    } else {
        first_control_in_descriptors(descs.drop_first())
    }
}

/// The control descriptor the validator selects: the first control
/// descriptor found when scanning the interfaces in configuration order
/// and, within each interface, its descriptors in order.
pub open spec fn selected_control_descriptor(
    interfaces: Seq<InterfaceInfo>,
) -> Option<InterfaceDescriptorInfo>
    decreases interfaces.len(),
{
    if interfaces.len() == 0 {
        None
    } else {
        match first_control_in_descriptors(interfaces[0].descriptors@) {
            Some(desc) => Some(desc),
            None => selected_control_descriptor(interfaces.drop_first()),
        }
    }
}

/// The interface number validation yields on a given configuration, or
/// `None` where it must fail: no control descriptor, or the selected one
/// missing a required endpoint.
pub open spec fn validation_outcome(config: ConfigInfo) -> Option<u8> {
    match selected_control_descriptor(config.interfaces@) {
        Some(desc) => if has_required_endpoints(desc) {
            Some(desc.interface_number)
        } else {
            None
        },
        None => None,
    }
}

/// Everything the validator promises of its result: `Ok` carries exactly
/// the owed interface number, and an error is `ProtocolError`, returned
/// exactly when the configuration offers no validated interface.
pub open spec fn validation_outcome_holds(config: ConfigInfo, r: Result<u8, DeviceError>) -> bool {
    match r {
        Ok(n) => validation_outcome(config) == Some(n),
        Err(e) => e is ProtocolError && validation_outcome(config) is None,
    }
}

/// Whether `address` occurs among the endpoint addresses.
fn contains_address(addresses: &Vec<u8>, address: u8) -> (r: bool)
    ensures
        r == addresses@.contains(address),
{
    let mut k: usize = 0;
    while k < addresses.len()
        invariant
            k <= addresses@.len(),
            forall|m: int| 0 <= m < k ==> addresses@[m] != address,
        decreases addresses@.len() - k,
    {
        if addresses[k] == address {
            return true;
        }
        k += 1;
    }
    false
}

/// The position of the first control descriptor among one interface's
/// descriptors, if any.
fn first_control_position(descs: &Vec<InterfaceDescriptorInfo>) -> (r: Option<usize>)
    ensures
        match r {
            Some(j) => j < descs@.len() && first_control_in_descriptors(descs@) == Some(
                descs@[j as int],
            ),
            None => first_control_in_descriptors(descs@) is None,
        },
{
    let mut j: usize = 0;
    proof {
        assert(descs@.skip(0) =~= descs@);
    }
    while j < descs.len()
        invariant
            j <= descs@.len(),
            first_control_in_descriptors(descs@) == first_control_in_descriptors(
                descs@.skip(j as int),
            ),
        decreases descs@.len() - j,
    {
        proof {
            assert(descs@.skip(j as int)[0] == descs@[j as int]);
            assert(descs@.skip(j as int).drop_first() =~= descs@.skip(j as int + 1));
        }
        if descs[j].class_code == CONTROL_CLASS && descs[j].protocol_code == CONTROL_PROTOCOL {
            return Some(j);
        }
        j += 1;
    }
    proof {
        assert(descs@.skip(descs@.len() as int) =~= Seq::<InterfaceDescriptorInfo>::empty());
    }
    None
}

/// The selected control descriptor of the configuration: the first, in
/// scan order, whose class and protocol codes equal the sentinel.
fn find_control_descriptor(config: &ConfigInfo) -> (r: Option<&InterfaceDescriptorInfo>)
    ensures
        match r {
            Some(desc) => selected_control_descriptor(config.interfaces@) == Some(*desc),
            None => selected_control_descriptor(config.interfaces@) is None,
        },
{
    let interfaces = &config.interfaces;
    let mut i: usize = 0;
    proof {
        assert(interfaces@.skip(0) =~= interfaces@);
    }
    while i < interfaces.len()
        invariant
            i <= interfaces@.len(),
            interfaces@ == config.interfaces@,
            selected_control_descriptor(interfaces@) == selected_control_descriptor(
                interfaces@.skip(i as int),
            ),
        decreases interfaces@.len() - i,
    {
        proof {
            assert(interfaces@.skip(i as int)[0] == interfaces@[i as int]);
            assert(interfaces@.skip(i as int).drop_first() =~= interfaces@.skip(i as int + 1));
        }
        let descs = &interfaces[i].descriptors;
        match first_control_position(descs) {
            Some(j) => {
                proof {
                    assert(selected_control_descriptor(interfaces@.skip(i as int)) == Some(
                        descs@[j as int],
                    ));
                }
                return Some(&descs[j]);
            }
            None => {}
        }
        i += 1;
    }
    proof {
        assert(interfaces@.skip(interfaces@.len() as int) =~= Seq::<InterfaceInfo>::empty());
    }
    None
}

/// Ensures the vendor's control interface is available in the device's
/// active configuration and has the necessary endpoints for operation.
///
/// Scans the interfaces for the first descriptor whose class and protocol
/// codes equal the sentinel; absence is a `ProtocolError` (a matched
/// device without the expected control surface). The selected descriptor
/// must then hold both fixed endpoint addresses, each checked
/// independently; absence of either is likewise a `ProtocolError`. On
/// success the validated interface's number is returned, for the caller
/// to claim.
pub fn ensure_interface(config: &ConfigInfo) -> (r: Result<u8, DeviceError>)
    ensures
        validation_outcome_holds(*config, r),
{
    let control_interface = match find_control_descriptor(config) {
        Some(desc) => desc,
        None => {
            return Err(DeviceError::ProtocolError);
        }
    };
    if !contains_address(&control_interface.endpoint_addresses, ENDPOINT_IN) {
        return Err(DeviceError::ProtocolError);
    }
    if !contains_address(&control_interface.endpoint_addresses, ENDPOINT_OUT) {
        return Err(DeviceError::ProtocolError);
    }
    Ok(control_interface.interface_number)
}

proof fn lemma_first_control_none_of_all(descs: Seq<InterfaceDescriptorInfo>)
    requires
        forall|j: int| 0 <= j < descs.len() ==> !is_control_descriptor(descs[j]),
    ensures
        first_control_in_descriptors(descs) is None,
    decreases descs.len(),
{
    if descs.len() > 0 {
        assert(!is_control_descriptor(descs[0]));
        assert forall|j: int|
            0 <= j < descs.drop_first().len() implies !is_control_descriptor(
            descs.drop_first()[j],
        ) by {
            assert(descs.drop_first()[j] == descs[j + 1]);
        }
        lemma_first_control_none_of_all(descs.drop_first());
    }
}

proof fn lemma_selected_none_of_all(interfaces: Seq<InterfaceInfo>)
    requires
        forall|i: int, j: int|
            0 <= i < interfaces.len() && 0 <= j < interfaces[i].descriptors@.len()
                ==> !is_control_descriptor(interfaces[i].descriptors@[j]),
    ensures
        selected_control_descriptor(interfaces) is None,
    decreases interfaces.len(),
{
    if interfaces.len() > 0 {
        assert forall|j: int|
            0 <= j < interfaces[0].descriptors@.len() implies !is_control_descriptor(
            interfaces[0].descriptors@[j],
        ) by {
            assert(!is_control_descriptor(interfaces[0].descriptors@[j]));
        }
        lemma_first_control_none_of_all(interfaces[0].descriptors@);
        assert forall|i: int, j: int|
            0 <= i < interfaces.drop_first().len() && 0 <= j
                < interfaces.drop_first()[i].descriptors@.len() implies !is_control_descriptor(
            interfaces.drop_first()[i].descriptors@[j],
        ) by {
            assert(interfaces.drop_first()[i] == interfaces[i + 1]);
        }
        lemma_selected_none_of_all(interfaces.drop_first());
    }
}

proof fn lemma_first_control_is_control(descs: Seq<InterfaceDescriptorInfo>)
    ensures
        first_control_in_descriptors(descs) matches Some(desc) ==> is_control_descriptor(desc)
            && exists|j: int| 0 <= j < descs.len() && descs[j] == desc,
    decreases descs.len(),
{
    if descs.len() == 0 {
    } else if is_control_descriptor(descs[0]) {
        let desc = descs[0];
        assert(0 <= 0 < descs.len() && descs[0] == desc);
    } else {
        lemma_first_control_is_control(descs.drop_first());
        match first_control_in_descriptors(descs.drop_first()) {
            Some(desc) => {
                let j = choose|j: int|
                    0 <= j < descs.drop_first().len() && descs.drop_first()[j] == desc;
                assert(descs[j + 1] == desc);
            }
            None => {}
        }
    }
}

/// Whatever the validator selects is a control descriptor — class and
/// protocol codes both the sentinel — that the configuration actually
/// contains.
pub proof fn lemma_selected_is_control(interfaces: Seq<InterfaceInfo>)
    ensures
        selected_control_descriptor(interfaces) matches Some(desc) ==> is_control_descriptor(desc)
            && exists|i: int, j: int|
            0 <= i < interfaces.len() && 0 <= j < interfaces[i].descriptors@.len()
                && interfaces[i].descriptors@[j] == desc,
    decreases interfaces.len(),
{
    if interfaces.len() > 0 {
        lemma_first_control_is_control(interfaces[0].descriptors@);
        match first_control_in_descriptors(interfaces[0].descriptors@) {
            Some(desc) => {
                let j = choose|j: int|
                    0 <= j < interfaces[0].descriptors@.len() && interfaces[0].descriptors@[j]
                        == desc;
                assert(0 <= 0 < interfaces.len() && 0 <= j < interfaces[0].descriptors@.len()
                    && interfaces[0].descriptors@[j] == desc);
            }
            None => {
                lemma_selected_is_control(interfaces.drop_first());
                match selected_control_descriptor(interfaces.drop_first()) {
                    Some(desc) => {
                        let (i, j) = choose|i: int, j: int|
                            0 <= i < interfaces.drop_first().len() && 0 <= j
                                < interfaces.drop_first()[i].descriptors@.len()
                                && interfaces.drop_first()[i].descriptors@[j] == desc;
                        assert(interfaces.drop_first()[i] == interfaces[i + 1]);
                        assert(0 <= i + 1 < interfaces.len() && 0 <= j < interfaces[i
                            + 1].descriptors@.len() && interfaces[i + 1].descriptors@[j] == desc);
                    }
                    None => {}
                }
            }
        }
    }
}

/// A configuration whose selected control descriptor — the first, in scan
/// order, with class and protocol codes 0xFF — carries both required
/// endpoint addresses is validated: the result is exactly that
/// descriptor's interface number. (Selection is first-found: an earlier
/// control descriptor without the endpoints shadows a later qualifying
/// one.)
pub proof fn lemma_qualifying_interface_validated(config: ConfigInfo, r: Result<u8, DeviceError>)
    requires
        selected_control_descriptor(config.interfaces@) matches Some(desc)
            && has_required_endpoints(desc),
        validation_outcome_holds(config, r),
    ensures
        r is Ok,
        r->Ok_0 == selected_control_descriptor(config.interfaces@)->0.interface_number,
{
}

/// A configuration with no control descriptor anywhere — no interface
/// descriptor has both class and protocol codes 0xFF — is rejected with
/// `ProtocolError`.
pub proof fn lemma_no_control_interface_rejected(config: ConfigInfo, r: Result<u8, DeviceError>)
    requires
        forall|i: int, j: int|
            0 <= i < config.interfaces@.len() && 0 <= j
                < config.interfaces@[i].descriptors@.len() ==> !is_control_descriptor(
                config.interfaces@[i].descriptors@[j],
            ),
        validation_outcome_holds(config, r),
    ensures
        r is Err && r->Err_0 is ProtocolError,
{
    lemma_selected_none_of_all(config.interfaces@);
}

/// A selected control descriptor missing the inbound or the outbound
/// endpoint address (or both) is rejected with `ProtocolError`.
pub proof fn lemma_missing_endpoint_rejected(config: ConfigInfo, r: Result<u8, DeviceError>)
    requires
        selected_control_descriptor(config.interfaces@) matches Some(desc)
            && !has_required_endpoints(desc),
        validation_outcome_holds(config, r),
    ensures
        r is Err && r->Err_0 is ProtocolError,
{
}

/// Validation is idempotent: two runs against the same unaltered
/// configuration agree — the same interface number on success, and a
/// `ProtocolError` from both on failure.
pub proof fn lemma_validation_idempotent(
    config: ConfigInfo,
    r1: Result<u8, DeviceError>,
    r2: Result<u8, DeviceError>,
)
    requires
        validation_outcome_holds(config, r1),
        validation_outcome_holds(config, r2),
    ensures
        r1 is Ok <==> r2 is Ok,
        r1 matches Ok(a) ==> (r2 matches Ok(b) && a == b),
        r1 is Err ==> (r1->Err_0 is ProtocolError && r2->Err_0 is ProtocolError),
{
}

/// With exactly one matching candidate in the scan, the matcher selects
/// that candidate and no other.
pub proof fn lemma_unique_match_selected(
    scan: Seq<Option<DeviceInfo>>,
    k: int,
    r: Result<usize, DeviceError>,
)
    requires
        0 <= k < scan.len(),
        candidate_matches(scan[k]),
        forall|j: int| 0 <= j < scan.len() && j != k ==> !candidate_matches(scan[j]),
        matcher_outcome_holds(scan, r),
    ensures
        r is Ok && r->Ok_0 == k,
{
    assert(r is Ok);
    let i = r->Ok_0 as int;
    if i != k {
        assert(!candidate_matches(scan[i]));
    }
}

} // verus!
