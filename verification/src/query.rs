//! The shared device- and version-inquiry codec: the two universal SysEx
//! request frames, and the parsers for their fixed-layout responses.

use vstd::prelude::*;

use crate::midi_io::OutputDevice;
use crate::MidiError;

verus! {

/// The device id that addresses every device in a device inquiry.
pub const QUERY_DEVICE_ID_FOR_ANY: u8 = 127;

/// Whom a device inquiry is addressed to.
#[derive(Debug, Copy, Clone, Eq, PartialEq, Structural)]
pub enum DeviceIdQuery {
    /// Send the request to a specific device id.
    Specific(u8),
    /// Send the request to all devices.
    Any,
}

/// A parsed device-inquiry response.
#[derive(Debug, Eq, PartialEq, Hash, Clone, Copy, Structural)]
pub struct DeviceInquiry {
    pub device_id: u8,
    pub family_code: u16,
    pub family_member_code: u16,
    pub firmware_revision: u32,
}

/// A parsed version-inquiry response.
#[derive(Debug, Eq, PartialEq, Hash, Clone, Copy, Structural)]
pub struct VersionInquiry {
    pub bootloader_version: u32,
    pub firmware_version: u32,
    pub bootloader_size: u16,
}

/// The device id byte a query addresses.
pub open spec fn query_device_id_spec(query: DeviceIdQuery) -> u8 {
    match query {
        DeviceIdQuery::Specific(id) => id,
        DeviceIdQuery::Any => QUERY_DEVICE_ID_FOR_ANY,
    }
}

/// The universal device-inquiry request frame.
pub open spec fn device_inquiry_request_spec(query: DeviceIdQuery) -> Seq<u8> {
    seq![240u8, 126u8, query_device_id_spec(query), 6u8, 1u8, 247u8]
}

/// The vendor version-inquiry request frame.
pub open spec fn version_inquiry_request_spec() -> Seq<u8> {
    seq![240u8, 0u8, 32u8, 41u8, 0u8, 112u8, 247u8]
}

/// Whether a frame has the exact shape of a device-inquiry response.
pub open spec fn is_device_query_response(d: Seq<u8>) -> bool {
    d.len() == 17 && d[0] == 240 && d[1] == 126 && d[3] == 6 && d[4] == 2 && d[5] == 0 && d[6]
        == 32 && d[7] == 41 && d[16] == 247
}

/// The record a device-inquiry response carries: big-endian family codes,
/// and a firmware revision reported as four decimal digits.
pub open spec fn device_query_fields(d: Seq<u8>) -> DeviceInquiry {
    DeviceInquiry {
        device_id: d[2],
        family_code: (d[8] as u16 * 256 + d[9] as u16) as u16,
        family_member_code: (d[10] as u16 * 256 + d[11] as u16) as u16,
        firmware_revision: (d[12] as u32 * 1000 + d[13] as u32 * 100 + d[14] as u32 * 10
            + d[15] as u32) as u32,
    }
}

/// Whether a frame has the exact shape of a version-inquiry response.
pub open spec fn is_version_query_response(d: Seq<u8>) -> bool {
    d.len() == 19 && d[0] == 240 && d[1] == 0 && d[2] == 32 && d[3] == 41 && d[4] == 0 && d[5]
        == 112 && d[18] == 247
}

/// The record a version-inquiry response carries: two five-digit decimal
/// version numbers and a big-endian bootloader size.
pub open spec fn version_query_fields(d: Seq<u8>) -> VersionInquiry {
    VersionInquiry {
        bootloader_version: (d[6] as u32 * 10000 + d[7] as u32 * 1000 + d[8] as u32 * 100
            + d[9] as u32 * 10 + d[10] as u32) as u32,
        firmware_version: (d[11] as u32 * 10000 + d[12] as u32 * 1000 + d[13] as u32 * 100
            + d[14] as u32 * 10 + d[15] as u32) as u32,
        bootloader_size: (d[16] as u16 * 256 + d[17] as u16) as u16,
    }
}

/// Queue a device-inquiry request. A specific device id may not be the
/// broadcast id, which stands for "any device".
pub fn request_device_inquiry<T: OutputDevice>(output: &mut T, query: DeviceIdQuery) -> (r:
    Result<(), MidiError>)
    requires
        query matches DeviceIdQuery::Specific(id) ==> id != QUERY_DEVICE_ID_FOR_ANY,
    ensures
        r is Ok,
        final(output).frames() == old(output).frames().push(device_inquiry_request_spec(query)),
{
    let query_device_id: u8 = match query {
        DeviceIdQuery::Specific(device_id) => device_id,
        DeviceIdQuery::Any => QUERY_DEVICE_ID_FOR_ANY,
    };
    let bytes: [u8; 6] = [240, 126, query_device_id, 6, 1, 247];
    proof {
        assert(bytes@ =~= device_inquiry_request_spec(query));
    }
    output.send(bytes.as_slice())
}

/// Queue a version-inquiry request.
pub fn request_version_inquiry<T: OutputDevice>(output: &mut T) -> (r: Result<(), MidiError>)
    ensures
        r is Ok,
        final(output).frames() == old(output).frames().push(version_inquiry_request_spec()),
{
    let bytes: [u8; 7] = [240, 0, 32, 41, 0, 112, 247];
    proof {
        assert(bytes@ =~= version_inquiry_request_spec());
    }
    output.send(bytes.as_slice())
}

/// Recognize a device-inquiry response frame and decode its fields.
pub fn parse_device_query(data: &[u8]) -> (r: Option<DeviceInquiry>)
    ensures
        r is Some <==> is_device_query_response(data@),
        r matches Some(q) ==> q == device_query_fields(data@),
{
    if data.len() == 17 && data[0] == 240 && data[1] == 126 && data[3] == 6 && data[4] == 2
        && data[5] == 0 && data[6] == 32 && data[7] == 41 && data[16] == 247 {
        let family_code: u16 = (data[8] as u16) * 256 + (data[9] as u16);
        let family_member_code: u16 = (data[10] as u16) * 256 + (data[11] as u16);
        let firmware_revision: u32 = (data[12] as u32) * 1000 + (data[13] as u32) * 100 + (
        data[14] as u32) * 10 + (data[15] as u32);
        Some(
            DeviceInquiry {
                device_id: data[2],
                family_code,
                family_member_code,
                firmware_revision,
            },
        )
    } else {
        None
    }
}

/// Recognize a version-inquiry response frame and decode its fields.
pub fn parse_version_query(data: &[u8]) -> (r: Option<VersionInquiry>)
    ensures
        r is Some <==> is_version_query_response(data@),
        r matches Some(q) ==> q == version_query_fields(data@),
{
    if data.len() == 19 && data[0] == 240 && data[1] == 0 && data[2] == 32 && data[3] == 41
        && data[4] == 0 && data[5] == 112 && data[18] == 247 {
        let bootloader_version: u32 = (data[6] as u32) * 10000 + (data[7] as u32) * 1000 + (
        data[8] as u32) * 100 + (data[9] as u32) * 10 + (data[10] as u32);
        let firmware_version: u32 = (data[11] as u32) * 10000 + (data[12] as u32) * 1000 + (
        data[13] as u32) * 100 + (data[14] as u32) * 10 + (data[15] as u32);
        let bootloader_size: u16 = (data[16] as u16) * 256 + (data[17] as u16);
        Some(VersionInquiry { bootloader_version, firmware_version, bootloader_size })
    } else {
        None
    }
}

} // verus!
