//! Wire format of the control link to the RP2040 bridge.
//!
//! A request is `LEN LO, LEN HI, ID, BUS, PAGE, CMD, DATA...` and a response is
//! `LEN LO, LEN HI, ID, PAYLOAD...`, where the length counts the whole frame.

use vstd::prelude::*;
use vstd::string::StringSliceAdditionalSpecFns;

verus! {

pub const INFO_SCHEMA_VERSION: u8 = 1;
pub const PROTOCOL_MAJOR: u8 = 1;
pub const VERSION_MAX_LENGTH: usize = 63;

pub const SAFETY_STATUS_SCHEMA_VERSION: u8 = 1;
pub const SAFETY_STATUS_LENGTH: usize = 17;

pub const PAGE_SYSTEM: u8 = 0x00;
pub const SYSTEM_GET_INFO: u8 = 0x01;
pub const SYSTEM_GET_RX_STATS: u8 = 0x02;
pub const SYSTEM_GET_SAFETY_STATUS: u8 = 0x10;
pub const SYSTEM_ARM_SAFETY_LEASE: u8 = 0x11;
pub const SYSTEM_SAFETY_HEARTBEAT: u8 = 0x12;
pub const SYSTEM_CLEAR_SAFETY_FAULT: u8 = 0x13;
pub const SYSTEM_DISARM_SAFETY_LEASE: u8 = 0x14;

pub const PAGE_GPIO: u8 = 0x06;
pub const GPIO_5V_ENABLE: u8 = 0x01;
pub const GPIO_ASIC_RESET: u8 = 0x02;
pub const GPIO_ASIC_TRIP: u8 = 0x03;

pub const PAGE_FAN: u8 = 0x09;
pub const FAN_SET_SPEED: u8 = 0x10;
pub const FAN_GET_TACH: u8 = 0x20;

pub const EVIDENCE_OUTPUTS_SAFE: u16 = 0x0001;
pub const EVIDENCE_LEASE_VALID: u16 = 0x0002;
pub const EVIDENCE_TRIP_CLEAR: u16 = 0x0004;
pub const EVIDENCE_FAULT_CLEAR: u16 = 0x0008;

#[derive(Clone, Copy, Debug, PartialEq, Eq, Structural)]
pub enum ProtocolError {
    BufferTooSmall,
    InvalidFrame,
    InvalidResponse,
    Timeout,
    InvalidCommand,
    Denied,
    Fault,
}

#[derive(Clone, Copy, Debug, PartialEq, Eq)]
pub struct BridgeInfo<'a> {
    pub protocol_major: u8,
    pub protocol_minor: u8,
    pub version: &'a str,
}

impl<'a> BridgeInfo<'a> {
    /// The bridge speaks a protocol this firmware understands.
    pub fn is_compatible(self) -> (r: bool)
        ensures
            r == (self.protocol_major == PROTOCOL_MAJOR),
    {
        self.protocol_major == PROTOCOL_MAJOR
    }
}

#[derive(Clone, Copy, Debug, PartialEq, Eq, Structural)]
pub enum SafetyState {
    SafeOff,
    Controlled,
    FaultLatched,
}

#[derive(Clone, Copy, Debug, PartialEq, Eq, Structural)]
pub enum SafetyFault {
    NoFault,
    LeaseExpired,
    AsicTrip,
}

#[derive(Clone, Copy, Debug, PartialEq, Eq, Structural)]
pub struct SafetyStatus {
    pub stage: u8,
    pub state: SafetyState,
    pub fault: SafetyFault,
    pub runtime_verdict: u8,
    pub production_verdict: u8,
    pub capabilities: u16,
    pub evidence: u16,
    pub lease_remaining_ms: u32,
    pub five_volt_enabled: bool,
    pub asic_reset_asserted: bool,
    pub fan_full: bool,
    pub fan_percent: u8,
    pub trip_input_asserted: bool,
}

impl SafetyStatus {
    /// 5 V off, ASIC held in reset and the fan at full speed.
    pub open spec fn outputs_are_safe(self) -> bool {
        !self.five_volt_enabled && self.asic_reset_asserted && self.fan_percent == 100
    }

    pub open spec fn trip_is_clear(self) -> bool {
        !self.trip_input_asserted && (self.evidence & EVIDENCE_TRIP_CLEAR) != 0
    }

    pub open spec fn fault_is_clear(self) -> bool {
        self.fault == SafetyFault::NoFault && (self.evidence & EVIDENCE_FAULT_CLEAR) != 0
    }

    pub open spec fn lease_is_valid(self) -> bool {
        self.state == SafetyState::Controlled && self.lease_remaining_ms > 0 && (self.evidence
            & EVIDENCE_LEASE_VALID) != 0
    }

    pub fn outputs_safe(self) -> (r: bool)
        ensures
            r == self.outputs_are_safe(),
    {
        !self.five_volt_enabled && self.asic_reset_asserted && self.fan_percent == 100
    }

    pub fn trip_clear(self) -> (r: bool)
        ensures
            r == self.trip_is_clear(),
    {
        !self.trip_input_asserted && (self.evidence & EVIDENCE_TRIP_CLEAR) != 0
    }

    pub fn fault_clear(self) -> (r: bool)
        ensures
            r == self.fault_is_clear(),
    {
        self.fault == SafetyFault::NoFault && (self.evidence & EVIDENCE_FAULT_CLEAR) != 0
    }

    pub fn lease_valid(self) -> (r: bool)
        ensures
            r == self.lease_is_valid(),
    {
        self.state == SafetyState::Controlled && self.lease_remaining_ms > 0 && (self.evidence
            & EVIDENCE_LEASE_VALID) != 0
    }
}

/// Little-endian value of two bytes.
pub open spec fn le16(lo: u8, hi: u8) -> int {
    lo as int + 256 * (hi as int)
}

/// Little-endian value of four bytes.
pub open spec fn le32(b0: u8, b1: u8, b2: u8, b3: u8) -> int {
    b0 as int + 256 * (b1 as int) + 65536 * (b2 as int) + 16777216 * (b3 as int)
}

/// The two little-endian length bytes that open every frame.
pub open spec fn length_prefix(n: int) -> Seq<u8> {
    seq![(n % 256) as u8, (n / 256) as u8]
}

/// The request frame that asks the bridge for `command` on `page`.
pub open spec fn request_frame(id: u8, page: u8, command: u8, payload: Seq<u8>) -> Seq<u8> {
    length_prefix(payload.len() + 6int) + seq![id, 0u8, page, command] + payload
}

/// The response frame that answers request `id` with `payload`.
pub open spec fn response_frame(id: u8, payload: Seq<u8>) -> Seq<u8> {
    length_prefix(payload.len() + 3int) + seq![id] + payload
}

/// Writes the request frame for `command` on `page` into `output` and returns its length.
pub fn encode_request(id: u8, page: u8, command: u8, payload: &[u8], output: &mut [u8]) -> (r:
    Result<usize, ProtocolError>)
    ensures
        r is Ok <==> payload@.len() + 6 <= u16::MAX && payload@.len() + 6 <= old(output)@.len(),
        match r {
            Ok(n) => n == payload@.len() + 6 && final(output)@ == request_frame(
                id,
                page,
                command,
                payload@,
            ) + old(output)@.skip(n as int),
            Err(e) => e == ProtocolError::BufferTooSmall && final(output)@ == old(output)@,
        },
{
    let frame_length = match payload.len().checked_add(6) {
        Some(n) => n,
        None => return Err(ProtocolError::BufferTooSmall),
    };
    if frame_length > u16::MAX as usize || frame_length > output.len() {
        return Err(ProtocolError::BufferTooSmall);
    }
    output[0] = (frame_length % 256) as u8;
    output[1] = (frame_length / 256) as u8;
    output[2] = id;
    output[3] = 0;
    output[4] = page;
    output[5] = command;
    let mut i: usize = 0;
    while i < payload.len()
        invariant
            i <= payload@.len(),
            frame_length == payload@.len() + 6,
            frame_length <= output@.len(),
            output@.len() == old(output)@.len(),
            output@.subrange(0, 6) == length_prefix(frame_length as int) + seq![
                id,
                0u8,
                page,
                command,
            ],
            forall|j: int| 0 <= j < i ==> output@[6 + j] == payload@[j],
            forall|j: int| 6 + i <= j < output@.len() ==> output@[j] == old(output)@[j],
        decreases payload@.len() - i,
    {
        output[6 + i] = payload[i];
        i = i + 1;
    }
    assert(output@ =~= request_frame(id, page, command, payload@) + old(output)@.skip(
        frame_length as int,
    )) by {
        assert(output@.subrange(0, 6)[0] == output@[0]);
    }
    Ok(frame_length)
}

/// What the framer learns from the bytes received so far: an error for an
/// impossible length, `None` while the frame is incomplete, else its length.
pub open spec fn frame_length_status(frame: Seq<u8>, maximum: int) -> Result<
    Option<usize>,
    ProtocolError,
> {
    if frame.len() < 2 {
        Ok(None)
    } else if le16(frame[0], frame[1]) < 3 || le16(frame[0], frame[1]) > maximum {
        Err(ProtocolError::InvalidFrame)
    } else if frame.len() < le16(frame[0], frame[1]) {
        Ok(None)
    } else {
        Ok(Some(le16(frame[0], frame[1]) as usize))
    }
}

pub fn declared_frame_length(frame: &[u8], maximum: usize) -> (r: Result<
    Option<usize>,
    ProtocolError,
>)
    ensures
        r == frame_length_status(frame@, maximum as int),
{
    if frame.len() < 2 {
        return Ok(None);
    }
    let frame_length = frame[0] as usize + frame[1] as usize * 256;
    if frame_length < 3 || frame_length > maximum {
        return Err(ProtocolError::InvalidFrame);
    }
    if frame.len() < frame_length {
        return Ok(None);
    }
    Ok(Some(frame_length))
}

/// The error a bridge reports with a one-byte payload.
pub open spec fn bridge_error(code: u8) -> Option<ProtocolError> {
    if code == 0x10 {
        Some(ProtocolError::Timeout)
    } else if code == 0x11 {
        Some(ProtocolError::InvalidCommand)
    } else if code == 0x12 {
        Some(ProtocolError::Denied)
    } else if code == 0x13 {
        Some(ProtocolError::Fault)
    } else {
        None
    }
}

/// The outcome of decoding `frame` as the answer to request `expected_id`.
pub open spec fn response_status(expected_id: u8, frame: Seq<u8>) -> Result<Seq<u8>, ProtocolError> {
    if frame.len() < 2 || le16(frame[0], frame[1]) < 3 || le16(frame[0], frame[1]) > frame.len() {
        Err(ProtocolError::InvalidFrame)
    } else if le16(frame[0], frame[1]) != frame.len() || frame[2] != expected_id {
        Err(ProtocolError::InvalidResponse)
    } else if frame.len() == 4 && bridge_error(frame[3]) is Some {
        Err(bridge_error(frame[3]).unwrap())
    } else {
        Ok(frame.skip(3))
    }
}

pub fn decode_response(expected_id: u8, frame: &[u8]) -> (r: Result<&[u8], ProtocolError>)
    ensures
        match r {
            Ok(payload) => response_status(expected_id, frame@) == Ok::<Seq<u8>, ProtocolError>(
                payload@,
            ),
            Err(e) => response_status(expected_id, frame@) == Err::<Seq<u8>, ProtocolError>(e),
        },
{
    let declared = match declared_frame_length(frame, frame.len()) {
        Ok(Some(n)) => n,
        Ok(None) => return Err(ProtocolError::InvalidFrame),
        Err(e) => return Err(e),
    };
    if declared != frame.len() || frame[2] != expected_id {
        return Err(ProtocolError::InvalidResponse);
    }
    let payload = vstd::slice::slice_subrange(frame, 3, frame.len());
    if payload.len() == 1 {
        if payload[0] == 0x10 {
            return Err(ProtocolError::Timeout);
        } else if payload[0] == 0x11 {
            return Err(ProtocolError::InvalidCommand);
        } else if payload[0] == 0x12 {
            return Err(ProtocolError::Denied);
        } else if payload[0] == 0x13 {
            return Err(ProtocolError::Fault);
        }
    }
    assert(payload@ =~= frame@.skip(3));
    Ok(payload)
}

/// Printable ASCII, the only bytes a version string may hold.
pub open spec fn is_printable(byte: u8) -> bool {
    0x20 <= byte <= 0x7e
}

/// The bridge-info payload: schema, major, minor, version length, version bytes.
pub open spec fn info_accepted(payload: Seq<u8>) -> bool {
    &&& payload.len() >= 4
    &&& payload[0] == INFO_SCHEMA_VERSION
    &&& payload[3] != 0
    &&& payload[3] <= VERSION_MAX_LENGTH
    &&& payload.len() == 4 + payload[3]
    &&& forall|i: int| 4 <= i < payload.len() ==> is_printable(#[trigger] payload[i])
}

#[verifier::external_type_specification]
#[verifier::external_body]
pub struct ExUtf8Error(core::str::Utf8Error);

/// `core::str::from_utf8`: std documents that it succeeds exactly when the
/// bytes are valid UTF-8, and that the string it returns is made of those
/// same bytes. Nothing is claimed of the error value.
#[verifier::external_body]
fn str_from_utf8(bytes: &[u8]) -> (r: Result<&str, core::str::Utf8Error>)
    ensures
        r is Ok <==> vstd::utf8::valid_utf8(bytes@),
        r matches Ok(s) ==> s.spec_bytes() == bytes@,
{
    core::str::from_utf8(bytes)
}

proof fn lemma_ascii_is_valid_utf8(bytes: Seq<u8>)
    requires
        forall|i: int| 0 <= i < bytes.len() ==> bytes[i] <= 0x7f,
    ensures
        vstd::utf8::valid_utf8(bytes),
{
    assert(bytes.subrange(0, 0) =~= Seq::<u8>::empty());
    assert(vstd::utf8::valid_utf8(bytes.subrange(0, 0)));
    assert(forall|i: int|
        0 <= 0 <= i < bytes.len() <= bytes.len() ==> #[trigger] vstd::utf8::is_leading_byte_width_1(
            bytes[i],
        ));
    vstd::utf8::partial_valid_utf8_extend_ascii_block(bytes, 0, bytes.len() as int);
    assert(bytes.subrange(0, bytes.len() as int) =~= bytes);
}

/// ASCII bytes decode, one character per byte, to the characters with the same codes.
proof fn lemma_ascii_decodes_bytewise(bytes: Seq<u8>)
    requires
        forall|i: int| 0 <= i < bytes.len() ==> bytes[i] <= 0x7f,
    ensures
        vstd::utf8::valid_utf8(bytes),
        vstd::utf8::decode_utf8(bytes) == bytes.map_values(|b: u8| b as char),
    decreases bytes.len(),
{
    lemma_ascii_is_valid_utf8(bytes);
    if bytes.len() > 0 {
        let rest = bytes.drop_first();
        lemma_ascii_decodes_bytewise(rest);
        let b = bytes[0];
        assert(b <= 0x7f ==> (b & 0x7fu8) == b) by (bit_vector);
        assert(vstd::utf8::pop_first_scalar(bytes) =~= rest);
        assert(vstd::utf8::decode_utf8(bytes) =~= bytes.map_values(|b: u8| b as char));
    } else {
        assert(bytes.map_values(|b: u8| b as char) =~= Seq::<char>::empty());
    }
}

pub fn decode_info(payload: &[u8]) -> (r: Result<BridgeInfo<'_>, ProtocolError>)
    ensures
        r is Ok <==> info_accepted(payload@),
        match r {
            Ok(info) => info.protocol_major == payload@[1] && info.protocol_minor == payload@[2]
                && info.version.spec_bytes() == payload@.skip(4)
                && info.version@ == payload@.skip(4).map_values(|b: u8| b as char),
            Err(e) => e == ProtocolError::InvalidResponse,
        },
{
    if payload.len() < 4 || payload[0] != INFO_SCHEMA_VERSION || payload[3] == 0 || payload[3]
        as usize > VERSION_MAX_LENGTH || payload.len() != 4 + payload[3] as usize {
        return Err(ProtocolError::InvalidResponse);
    }
    let version_bytes = vstd::slice::slice_subrange(payload, 4, payload.len());
    let version = match str_from_utf8(version_bytes) {
        Ok(version) => version,
        Err(_) => {
            proof {
                if info_accepted(payload@) {
                    assert forall|i: int| 0 <= i < version_bytes@.len() implies version_bytes@[i]
                        <= 0x7f by {
                        assert(version_bytes@[i] == payload@[4 + i]);
                    }
                    lemma_ascii_is_valid_utf8(version_bytes@);
                }
            }
            return Err(ProtocolError::InvalidResponse);
        },
    };
    let bytes = version.as_bytes();
    let mut i: usize = 0;
    while i < bytes.len()
        invariant
            bytes@ == version_bytes@,
            version_bytes@ == payload@.skip(4),
            payload@.len() >= 4,
            i <= bytes@.len(),
            forall|j: int| 4 <= j < 4 + i ==> is_printable(#[trigger] payload@[j]),
        decreases bytes@.len() - i,
    {
        let byte = bytes[i];
        if !(0x20 <= byte && byte <= 0x7e) {
            assert(payload@[4 + i] == byte);
            return Err(ProtocolError::InvalidResponse);
        }
        i = i + 1;
    }
    proof {
        assert forall|j: int| 0 <= j < version_bytes@.len() implies version_bytes@[j] <= 0x7f by {
            assert(version_bytes@[j] == payload@[4 + j]);
            assert(is_printable(payload@[4 + j]));
        }
        lemma_ascii_decodes_bytewise(version_bytes@);
        vstd::utf8::encode_utf8_decode_utf8(version@);
    }
    Ok(BridgeInfo { protocol_major: payload[1], protocol_minor: payload[2], version })
}

pub open spec fn safety_state_from_code(code: u8) -> SafetyState {
    if code == 0 {
        SafetyState::SafeOff
    } else if code == 1 {
        SafetyState::Controlled
    } else {
        SafetyState::FaultLatched
    }
}

pub open spec fn safety_fault_from_code(code: u8) -> SafetyFault {
    if code == 0 {
        SafetyFault::NoFault
    } else if code == 1 {
        SafetyFault::LeaseExpired
    } else {
        SafetyFault::AsicTrip
    }
}

/// Length, schema and the range of each enumerated or flag byte of a safety-status payload.
pub open spec fn status_layout_valid(p: Seq<u8>) -> bool {
    &&& p.len() == SAFETY_STATUS_LENGTH
    &&& p[0] == SAFETY_STATUS_SCHEMA_VERSION
    &&& p[1] <= 2
    &&& p[2] <= 2
    &&& p[3] <= 2
    &&& (p[14] & !0x07u8) == 0
    &&& p[15] <= 100
    &&& p[16] <= 1
}

/// The status that the bytes of a well-laid-out payload describe.
pub open spec fn status_fields(p: Seq<u8>) -> SafetyStatus {
    SafetyStatus {
        stage: p[1],
        state: safety_state_from_code(p[2]),
        fault: safety_fault_from_code(p[3]),
        runtime_verdict: p[4],
        production_verdict: p[5],
        capabilities: le16(p[6], p[7]) as u16,
        evidence: le16(p[8], p[9]) as u16,
        lease_remaining_ms: le32(p[10], p[11], p[12], p[13]) as u32,
        five_volt_enabled: (p[14] & 0x01u8) != 0,
        asic_reset_asserted: (p[14] & 0x02u8) != 0,
        fan_full: (p[14] & 0x04u8) != 0,
        fan_percent: p[15],
        trip_input_asserted: p[16] != 0,
    }
}

/// A status whose evidence bits agree with the outputs, trip input, fault and state it reports.
pub open spec fn status_coherent(s: SafetyStatus) -> bool {
    &&& s.fan_full == (s.fan_percent == 100)
    &&& ((s.evidence & EVIDENCE_OUTPUTS_SAFE) != 0) == s.outputs_are_safe()
    &&& ((s.evidence & EVIDENCE_TRIP_CLEAR) != 0) == !s.trip_input_asserted
    &&& ((s.evidence & EVIDENCE_FAULT_CLEAR) != 0) == (s.fault == SafetyFault::NoFault)
    &&& (s.state == SafetyState::FaultLatched) == (s.fault != SafetyFault::NoFault)
    &&& (s.state != SafetyState::Controlled ==> s.lease_remaining_ms == 0)
}

/// The status a payload reports, if it is well laid out and coherent.
pub open spec fn decoded_safety_status(p: Seq<u8>) -> Option<SafetyStatus> {
    if status_layout_valid(p) && status_coherent(status_fields(p)) {
        Some(status_fields(p))
    } else {
        None
    }
}

pub fn decode_safety_status(payload: &[u8]) -> (r: Result<SafetyStatus, ProtocolError>)
    ensures
        match r {
            Ok(status) => decoded_safety_status(payload@) == Some(status),
            Err(e) => e == ProtocolError::InvalidResponse && decoded_safety_status(payload@) is None,
        },
{
    if payload.len() != SAFETY_STATUS_LENGTH || payload[0] != SAFETY_STATUS_SCHEMA_VERSION
        || payload[1] > 2 || payload[2] > 2 || payload[3] > 2 || payload[14] & !0x07u8 != 0
        || payload[15] > 100 || payload[16] > 1 {
        return Err(ProtocolError::InvalidResponse);
    }
    let state = match payload[2] {
        0 => SafetyState::SafeOff,
        1 => SafetyState::Controlled,
        2 => SafetyState::FaultLatched,
        _ => return Err(ProtocolError::InvalidResponse),
    };
    let fault = match payload[3] {
        0 => SafetyFault::NoFault,
        1 => SafetyFault::LeaseExpired,
        2 => SafetyFault::AsicTrip,
        _ => return Err(ProtocolError::InvalidResponse),
    };
    let capabilities = payload[6] as u16 + payload[7] as u16 * 256;
    let evidence = payload[8] as u16 + payload[9] as u16 * 256;
    let lease_remaining_ms = payload[10] as u32 + payload[11] as u32 * 256 + payload[12] as u32
        * 65536 + payload[13] as u32 * 16777216;
    let five_volt_enabled = payload[14] & 0x01 != 0;
    let asic_reset_asserted = payload[14] & 0x02 != 0;
    let fan_full = payload[14] & 0x04 != 0;
    let fan_percent = payload[15];
    let trip_input_asserted = payload[16] != 0;

    let status = SafetyStatus {
        stage: payload[1],
        state,
        fault,
        runtime_verdict: payload[4],
        production_verdict: payload[5],
        capabilities,
        evidence,
        lease_remaining_ms,
        five_volt_enabled,
        asic_reset_asserted,
        fan_full,
        fan_percent,
        trip_input_asserted,
    };
    assert(status == status_fields(payload@));

    if fan_full != (fan_percent == 100) || ((evidence & EVIDENCE_OUTPUTS_SAFE) != 0) != (
    !five_volt_enabled && asic_reset_asserted && fan_percent == 100) || ((evidence
        & EVIDENCE_TRIP_CLEAR) != 0) == trip_input_asserted || ((evidence & EVIDENCE_FAULT_CLEAR)
        != 0) != (fault == SafetyFault::NoFault) || (state == SafetyState::FaultLatched) != (fault
        != SafetyFault::NoFault) || (state != SafetyState::Controlled && lease_remaining_ms != 0) {
        return Err(ProtocolError::InvalidResponse);
    }
    Ok(status)
}

/// The two length bytes of a frame read back as the length they encode.
pub proof fn lemma_length_prefix_read_back(n: int)
    requires
        0 <= n <= 0xffff,
    ensures
        length_prefix(n).len() == 2,
        le16(length_prefix(n)[0], length_prefix(n)[1]) == n,
{
    assert((n % 256) as u8 == n % 256);
    assert((n / 256) as u8 == n / 256);
}

/// The framer reads back the length that the encoder wrote: a request frame
/// that has fully arrived, whatever follows it, is complete at its own length.
pub proof fn law_request_length_read_back(
    id: u8,
    page: u8,
    command: u8,
    payload: Seq<u8>,
    tail: Seq<u8>,
    maximum: int,
)
    requires
        payload.len() + 6 <= 0xffff,
        payload.len() + 6 <= maximum,
    ensures
        frame_length_status(request_frame(id, page, command, payload) + tail, maximum) == Ok::<
            Option<usize>,
            ProtocolError,
        >(Some((payload.len() + 6) as usize)),
{
    lemma_length_prefix_read_back(payload.len() + 6int);
}

/// A response frame is decoded back to its payload by the request it answers,
/// unless the payload is a single error code.
pub proof fn law_response_read_back(id: u8, payload: Seq<u8>)
    requires
        payload.len() + 3 <= 0xffff,
        !(payload.len() == 1 && bridge_error(payload[0]) is Some),
    ensures
        response_status(id, response_frame(id, payload)) == Ok::<Seq<u8>, ProtocolError>(payload),
{
    lemma_length_prefix_read_back(payload.len() + 3int);
    let frame = response_frame(id, payload);
    assert(frame.skip(3) =~= payload);
    if frame.len() == 4 {
        assert(frame[3] == payload[0]);
    }
}

/// A one-byte error code in a response frame is reported as that error.
pub proof fn law_error_code_read_back(id: u8, code: u8)
    requires
        bridge_error(code) is Some,
    ensures
        response_status(id, response_frame(id, seq![code])) == Err::<Seq<u8>, ProtocolError>(
            bridge_error(code).unwrap(),
        ),
{
    lemma_length_prefix_read_back(4);
}

/// A response frame for another request is never taken for the answer.
pub proof fn law_response_for_other_request(id: u8, expected_id: u8, payload: Seq<u8>)
    requires
        id != expected_id,
        payload.len() + 3 <= 0xffff,
    ensures
        response_status(expected_id, response_frame(id, payload)) == Err::<Seq<u8>, ProtocolError>(
            ProtocolError::InvalidResponse,
        ),
{
    lemma_length_prefix_read_back(payload.len() + 3int);
}

/// A status that decodes is coherent, and its summary predicates follow from
/// its raw fields: the outputs-safe evidence bit is the outputs' safety, the
/// trip is clear exactly when the trip input is not asserted, the fault is
/// clear exactly when no fault is latched, and only a controlled status can
/// carry a lease.
pub proof fn law_decoded_status_is_coherent(payload: Seq<u8>, status: SafetyStatus)
    requires
        decoded_safety_status(payload) == Some(status),
    ensures
        status_coherent(status),
        status.outputs_are_safe() == ((status.evidence & EVIDENCE_OUTPUTS_SAFE) != 0),
        status.trip_is_clear() == !status.trip_input_asserted,
        status.fault_is_clear() == (status.fault == SafetyFault::NoFault),
        status.fault_is_clear() == (status.state != SafetyState::FaultLatched),
        status.lease_is_valid() ==> status.state == SafetyState::Controlled,
        status.state != SafetyState::Controlled ==> status.lease_remaining_ms == 0,
        status.fan_full == (status.fan_percent == 100),
{
}

/// A well-laid-out info payload (schema 1, a version length of 1 to 63 that
/// matches the payload) is accepted exactly when every version byte is
/// printable ASCII, from the space 0x20 to the tilde 0x7e.
pub proof fn law_info_version_bytes(payload: Seq<u8>)
    requires
        payload.len() >= 4,
        payload[0] == 1,
        1 <= payload[3] <= 63,
        payload.len() == 4 + payload[3],
    ensures
        info_accepted(payload) <==> (forall|i: int|
            4 <= i < payload.len() ==> 0x20 <= #[trigger] payload[i] <= 0x7e),
{
}

/// An info payload is refused when its schema is not 1, its version is empty
/// or longer than 63 bytes, or the payload is not exactly the four header
/// bytes and the version.
pub proof fn law_info_layout(payload: Seq<u8>)
    ensures
        info_accepted(payload) ==> payload.len() >= 5 && payload[0] == 1 && payload[3] <= 63
            && payload.len() == 4 + payload[3],
{
}

/// Every field of a decoded status is read from its byte of the payload: the
/// stage from byte 1; the state from byte 2 (0 safe-off, 1 controlled, 2 fault
/// latched); the fault from byte 3 (0 none, 1 lease expired, 2 ASIC trip);
/// the verdicts from bytes 4 and 5; capabilities, evidence and the remaining
/// lease little-endian from bytes 6-7, 8-9 and 10-13; the 5 V, reset and
/// full-fan flags from bits 0, 1 and 2 of byte 14; the fan percentage from
/// byte 15 and the trip input from byte 16.
pub proof fn law_status_fields_from_bytes(p: Seq<u8>, s: SafetyStatus)
    requires
        decoded_safety_status(p) == Some(s),
    ensures
        p.len() == 17,
        p[0] == 1,
        s.stage == p[1],
        p[2] == 0 <==> s.state == SafetyState::SafeOff,
        p[2] == 1 <==> s.state == SafetyState::Controlled,
        p[2] == 2 <==> s.state == SafetyState::FaultLatched,
        p[3] == 0 <==> s.fault == SafetyFault::NoFault,
        p[3] == 1 <==> s.fault == SafetyFault::LeaseExpired,
        p[3] == 2 <==> s.fault == SafetyFault::AsicTrip,
        s.runtime_verdict == p[4],
        s.production_verdict == p[5],
        s.capabilities == p[6] + 256 * p[7],
        s.evidence == p[8] + 256 * p[9],
        s.lease_remaining_ms == p[10] + 256 * p[11] + 65536 * p[12] + 16777216 * p[13],
        s.five_volt_enabled == (p[14] % 2 == 1),
        s.asic_reset_asserted == ((p[14] / 2) % 2 == 1),
        s.fan_full == ((p[14] / 4) % 2 == 1),
        p[14] < 8,
        s.fan_percent == p[15],
        p[15] <= 100,
        s.trip_input_asserted == (p[16] == 1),
        p[16] <= 1,
{
    let b = p[14];
    assert((b & !0x07u8) == 0 ==> b < 8) by (bit_vector);
    assert(((b & 0x01u8) != 0) == (b % 2 == 1)) by (bit_vector);
    assert(((b & 0x02u8) != 0) == ((b / 2) % 2 == 1)) by (bit_vector);
    assert(((b & 0x04u8) != 0) == ((b / 4) % 2 == 1)) by (bit_vector);
}

} // verus!
