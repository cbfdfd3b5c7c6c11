//! HCI packet types, opcodes, event and status codes, and the builders and
//! parsers for command, ACL and SCO frames as carried over USB (type byte,
//! header, payload).

use vstd::prelude::*;
use vstd::string::StringSliceAdditionalSpecFns;
use crate::bytes::{lo8, hi8, u16_le, low_byte, high_byte, read_u16_le, lemma_le16_roundtrip};

pub mod link_ctrl;
pub mod ctrl_bb;
pub mod info;
pub mod status;
pub mod le;

verus! {

// ============================================================================
// Packet types
// ============================================================================

/// HCI packet type indicator (first byte of a transport frame).
#[derive(Clone, Copy, PartialEq, Eq, Debug, Structural)]
pub enum HciPacketType {
    HciCommand,
    HciAclData,
    HciScoData,
    HciEvent,
    HciIsoData,
}

impl HciPacketType {
    /// Wire value of the packet type.
    pub open spec fn code(self) -> u8 {
        match self {
            HciPacketType::HciCommand => 0x01,
            HciPacketType::HciAclData => 0x02,
            HciPacketType::HciScoData => 0x03,
            HciPacketType::HciEvent => 0x04,
            HciPacketType::HciIsoData => 0x05,
        }
    }

    pub fn to_byte(&self) -> (r: u8)
        ensures
            r == self.code(),
    {
        match self {
            HciPacketType::HciCommand => 0x01,
            HciPacketType::HciAclData => 0x02,
            HciPacketType::HciScoData => 0x03,
            HciPacketType::HciEvent => 0x04,
            HciPacketType::HciIsoData => 0x05,
        }
    }

    pub fn from_byte(b: u8) -> (r: Option<Self>)
        ensures
            match r {
                Some(t) => t.code() == b,
                None => forall|t: HciPacketType| t.code() != b,
            },
    {
        match b {
            0x01 => Some(HciPacketType::HciCommand),
            0x02 => Some(HciPacketType::HciAclData),
            0x03 => Some(HciPacketType::HciScoData),
            0x04 => Some(HciPacketType::HciEvent),
            0x05 => Some(HciPacketType::HciIsoData),
            _ => None,
        }
    }
}

// ============================================================================
// OpCode helpers
// ============================================================================

/// OpCode Group Field values.
pub enum Ogf {
    LinkControl,
    LinkPolicy,
    ControllerBaseband,
    Informational,
    StatusParams,
    Testing,
    LeController,
    VendorSpecific,
}

impl Ogf {
    pub open spec fn code(self) -> u8 {
        match self {
            Ogf::LinkControl => 0x01,
            Ogf::LinkPolicy => 0x02,
            Ogf::ControllerBaseband => 0x03,
            Ogf::Informational => 0x04,
            Ogf::StatusParams => 0x05,
            Ogf::Testing => 0x06,
            Ogf::LeController => 0x08,
            Ogf::VendorSpecific => 0x3F,
        }
    }

    pub fn to_byte(&self) -> (r: u8)
        ensures
            r == self.code(),
    {
        match self {
            Ogf::LinkControl => 0x01,
            Ogf::LinkPolicy => 0x02,
            Ogf::ControllerBaseband => 0x03,
            Ogf::Informational => 0x04,
            Ogf::StatusParams => 0x05,
            Ogf::Testing => 0x06,
            Ogf::LeController => 0x08,
            Ogf::VendorSpecific => 0x3F,
        }
    }
}

/// The opcode built from a group and a command field: the low 10 bits of
/// `ocf` and the low 6 bits of `ogf` above them.
pub open spec fn spec_opcode(ogf: u8, ocf: u16) -> u16 {
    ((ocf as int % 1024) + (ogf as int % 64) * 1024) as u16
}

/// Builds an HCI command OpCode from OGF and OCF.
pub fn hci_opcode(ogf: u8, ocf: u16) -> (r: u16)
    ensures
        r == spec_opcode(ogf, ocf),
{
    ocf % 1024 + ((ogf % 64) as u16) * 1024
}

/// Extracts the OGF (top 6 bits) from an OpCode.
pub fn hci_ogf(opcode: u16) -> (r: u8)
    ensures
        r as int == opcode as int / 1024,
{
    (opcode / 1024) as u8
}

/// Extracts the OCF (low 10 bits) from an OpCode.
pub fn hci_ocf(opcode: u16) -> (r: u16)
    ensures
        r as int == opcode as int % 1024,
{
    opcode % 1024
}

/// Splitting an opcode built from a group and command field gives them back.
pub proof fn lemma_opcode_fields(ogf: u8, ocf: u16)
    requires
        ogf < 64,
        ocf < 1024,
    ensures
        spec_opcode(ogf, ocf) as int / 1024 == ogf as int,
        spec_opcode(ogf, ocf) as int % 1024 == ocf as int,
{
}

// ============================================================================
// Event, LE meta event and status codes
// ============================================================================

/// HCI event codes.
#[derive(Clone, Copy, PartialEq, Eq, Debug, Structural)]
pub enum HciEventCode {
    InquiryComplete,
    InquiryResult,
    ConnectionComplete,
    ConnectionRequest,
    DisconnectionComplete,
    AuthenticationComplete,
    RemoteNameRequestComplete,
    EncryptionChange,
    ChangeConnectionLinkKey,
    MasterLinkKeyComplete,
    ReadRemoteFeaturesComplete,
    ReadRemoteVersionComplete,
    CommandComplete,
    CommandStatus,
    HardwareError,
    NumberOfCompletedPackets,
    RoleChange,
    DataBufferOverflow,
    MaxSlotsChange,
    PinCodeRequest,
    LinkKeyRequest,
    LinkKeyNotification,
    LoopbackCommand,
    ReadClockOffsetComplete,
    ConnectionPacketTypeChange,
    QoSViolation,
    PageScanModeChange,
    PageScanRepetitionModeChange,
    FlowSpecificationComplete,
    InquiryResultWithRssi,
    ReadRemoteExtendedFeaturesComplete,
    LeMeta,
    NumberOfCompletedBlocks,
}

impl HciEventCode {
    /// Wire value of this variant.
    pub open spec fn code(self) -> u8 {
        match self {
            HciEventCode::InquiryComplete => 0x01,
            HciEventCode::InquiryResult => 0x02,
            HciEventCode::ConnectionComplete => 0x03,
            HciEventCode::ConnectionRequest => 0x04,
            HciEventCode::DisconnectionComplete => 0x05,
            HciEventCode::AuthenticationComplete => 0x06,
            HciEventCode::RemoteNameRequestComplete => 0x07,
            HciEventCode::EncryptionChange => 0x08,
            HciEventCode::ChangeConnectionLinkKey => 0x09,
            HciEventCode::MasterLinkKeyComplete => 0x0A,
            HciEventCode::ReadRemoteFeaturesComplete => 0x0B,
            HciEventCode::ReadRemoteVersionComplete => 0x0C,
            HciEventCode::CommandComplete => 0x0E,
            HciEventCode::CommandStatus => 0x0F,
            HciEventCode::HardwareError => 0x10,
            HciEventCode::NumberOfCompletedPackets => 0x13,
            HciEventCode::RoleChange => 0x12,
            HciEventCode::DataBufferOverflow => 0x1A,
            HciEventCode::MaxSlotsChange => 0x1B,
            HciEventCode::PinCodeRequest => 0x16,
            HciEventCode::LinkKeyRequest => 0x17,
            HciEventCode::LinkKeyNotification => 0x18,
            HciEventCode::LoopbackCommand => 0x19,
            HciEventCode::ReadClockOffsetComplete => 0x1C,
            HciEventCode::ConnectionPacketTypeChange => 0x1D,
            HciEventCode::QoSViolation => 0x1E,
            HciEventCode::PageScanModeChange => 0x1F,
            HciEventCode::PageScanRepetitionModeChange => 0x20,
            HciEventCode::FlowSpecificationComplete => 0x21,
            HciEventCode::InquiryResultWithRssi => 0x22,
            HciEventCode::ReadRemoteExtendedFeaturesComplete => 0x23,
            HciEventCode::LeMeta => 0x3E,
            HciEventCode::NumberOfCompletedBlocks => 0x44,
        }
    }

    pub fn to_byte(&self) -> (r: u8)
        ensures
            r == self.code(),
    {
        match self {
            HciEventCode::InquiryComplete => 0x01,
            HciEventCode::InquiryResult => 0x02,
            HciEventCode::ConnectionComplete => 0x03,
            HciEventCode::ConnectionRequest => 0x04,
            HciEventCode::DisconnectionComplete => 0x05,
            HciEventCode::AuthenticationComplete => 0x06,
            HciEventCode::RemoteNameRequestComplete => 0x07,
            HciEventCode::EncryptionChange => 0x08,
            HciEventCode::ChangeConnectionLinkKey => 0x09,
            HciEventCode::MasterLinkKeyComplete => 0x0A,
            HciEventCode::ReadRemoteFeaturesComplete => 0x0B,
            HciEventCode::ReadRemoteVersionComplete => 0x0C,
            HciEventCode::CommandComplete => 0x0E,
            HciEventCode::CommandStatus => 0x0F,
            HciEventCode::HardwareError => 0x10,
            HciEventCode::NumberOfCompletedPackets => 0x13,
            HciEventCode::RoleChange => 0x12,
            HciEventCode::DataBufferOverflow => 0x1A,
            HciEventCode::MaxSlotsChange => 0x1B,
            HciEventCode::PinCodeRequest => 0x16,
            HciEventCode::LinkKeyRequest => 0x17,
            HciEventCode::LinkKeyNotification => 0x18,
            HciEventCode::LoopbackCommand => 0x19,
            HciEventCode::ReadClockOffsetComplete => 0x1C,
            HciEventCode::ConnectionPacketTypeChange => 0x1D,
            HciEventCode::QoSViolation => 0x1E,
            HciEventCode::PageScanModeChange => 0x1F,
            HciEventCode::PageScanRepetitionModeChange => 0x20,
            HciEventCode::FlowSpecificationComplete => 0x21,
            HciEventCode::InquiryResultWithRssi => 0x22,
            HciEventCode::ReadRemoteExtendedFeaturesComplete => 0x23,
            HciEventCode::LeMeta => 0x3E,
            HciEventCode::NumberOfCompletedBlocks => 0x44,
        }
    }

    pub fn from_byte(b: u8) -> (r: Option<Self>)
        ensures
            match r {
                Some(t) => t.code() == b,
                None => forall|t: HciEventCode| t.code() != b,
            },
    {
        match b {
            0x01 => Some(HciEventCode::InquiryComplete),
            0x02 => Some(HciEventCode::InquiryResult),
            0x03 => Some(HciEventCode::ConnectionComplete),
            0x04 => Some(HciEventCode::ConnectionRequest),
            0x05 => Some(HciEventCode::DisconnectionComplete),
            0x06 => Some(HciEventCode::AuthenticationComplete),
            0x07 => Some(HciEventCode::RemoteNameRequestComplete),
            0x08 => Some(HciEventCode::EncryptionChange),
            0x09 => Some(HciEventCode::ChangeConnectionLinkKey),
            0x0A => Some(HciEventCode::MasterLinkKeyComplete),
            0x0B => Some(HciEventCode::ReadRemoteFeaturesComplete),
            0x0C => Some(HciEventCode::ReadRemoteVersionComplete),
            0x0E => Some(HciEventCode::CommandComplete),
            0x0F => Some(HciEventCode::CommandStatus),
            0x10 => Some(HciEventCode::HardwareError),
            0x13 => Some(HciEventCode::NumberOfCompletedPackets),
            0x12 => Some(HciEventCode::RoleChange),
            0x1A => Some(HciEventCode::DataBufferOverflow),
            0x1B => Some(HciEventCode::MaxSlotsChange),
            0x16 => Some(HciEventCode::PinCodeRequest),
            0x17 => Some(HciEventCode::LinkKeyRequest),
            0x18 => Some(HciEventCode::LinkKeyNotification),
            0x19 => Some(HciEventCode::LoopbackCommand),
            0x1C => Some(HciEventCode::ReadClockOffsetComplete),
            0x1D => Some(HciEventCode::ConnectionPacketTypeChange),
            0x1E => Some(HciEventCode::QoSViolation),
            0x1F => Some(HciEventCode::PageScanModeChange),
            0x20 => Some(HciEventCode::PageScanRepetitionModeChange),
            0x21 => Some(HciEventCode::FlowSpecificationComplete),
            0x22 => Some(HciEventCode::InquiryResultWithRssi),
            0x23 => Some(HciEventCode::ReadRemoteExtendedFeaturesComplete),
            0x3E => Some(HciEventCode::LeMeta),
            0x44 => Some(HciEventCode::NumberOfCompletedBlocks),
            _ => None,
        }
    }
}

/// Sub-event codes carried in an LE Meta event.
#[derive(Clone, Copy, PartialEq, Eq, Debug, Structural)]
pub enum LeMetaEvent {
    ConnectionComplete,
    AdvertisingReport,
    ConnectionUpdateComplete,
    ReadRemoteFeaturesComplete,
    LongTermKeyRequest,
    RemoteConnectionParamReq,
    DataLengthChange,
    ReadLocalP256KeyComplete,
    PhyUpdateComplete,
    EnhancedConnectionComplete,
    DirectAdvReport,
    ChannelSelection,
}

impl LeMetaEvent {
    /// Wire value of this variant.
    pub open spec fn code(self) -> u8 {
        match self {
            LeMetaEvent::ConnectionComplete => 0x01,
            LeMetaEvent::AdvertisingReport => 0x02,
            LeMetaEvent::ConnectionUpdateComplete => 0x03,
            LeMetaEvent::ReadRemoteFeaturesComplete => 0x04,
            LeMetaEvent::LongTermKeyRequest => 0x05,
            LeMetaEvent::RemoteConnectionParamReq => 0x06,
            LeMetaEvent::DataLengthChange => 0x07,
            LeMetaEvent::ReadLocalP256KeyComplete => 0x08,
            LeMetaEvent::PhyUpdateComplete => 0x09,
            LeMetaEvent::EnhancedConnectionComplete => 0x0A,
            LeMetaEvent::DirectAdvReport => 0x0B,
            LeMetaEvent::ChannelSelection => 0x0C,
        }
    }

    pub fn to_byte(&self) -> (r: u8)
        ensures
            r == self.code(),
    {
        match self {
            LeMetaEvent::ConnectionComplete => 0x01,
            LeMetaEvent::AdvertisingReport => 0x02,
            LeMetaEvent::ConnectionUpdateComplete => 0x03,
            LeMetaEvent::ReadRemoteFeaturesComplete => 0x04,
            LeMetaEvent::LongTermKeyRequest => 0x05,
            LeMetaEvent::RemoteConnectionParamReq => 0x06,
            LeMetaEvent::DataLengthChange => 0x07,
            LeMetaEvent::ReadLocalP256KeyComplete => 0x08,
            LeMetaEvent::PhyUpdateComplete => 0x09,
            LeMetaEvent::EnhancedConnectionComplete => 0x0A,
            LeMetaEvent::DirectAdvReport => 0x0B,
            LeMetaEvent::ChannelSelection => 0x0C,
        }
    }

}

/// HCI command and event status codes.
#[derive(Clone, Copy, PartialEq, Eq, Debug, Structural)]
pub enum HciStatus {
    Success,
    UnknownCommand,
    UnknownConnId,
    HardwareFailure,
    PageTimeout,
    AuthenticationFailure,
    PinKeyMissing,
    MemoryCapacityExceeded,
    ConnectionTimeout,
    ConnectionLimitExceeded,
    MaxConnectionsSync,
    AclDataExceeded,
    CommandDisallowed,
    RejectedResources,
    RejectedSecurity,
    RejectedPersonal,
    HostTimeout,
    UnsupportedFeature,
    InvalidParams,
    RemoteUserEnded,
    RemoteLowResources,
    RemotePowerOff,
    LocalHostTerminated,
    RepeatedAttempts,
    PairingNotAllowed,
    UnknownLmpPdu,
    UnsupportedRemote,
    ScoOffsetRejected,
    ScoIntervalRejected,
    AirModeRejected,
    InvalidLlParams,
    UnspecifiedError,
    UnsupportedParam,
    RoleChangeNotAllowed,
}

impl HciStatus {
    /// Wire value of this variant.
    pub open spec fn code(self) -> u8 {
        match self {
            HciStatus::Success => 0x00,
            HciStatus::UnknownCommand => 0x01,
            HciStatus::UnknownConnId => 0x02,
            HciStatus::HardwareFailure => 0x03,
            HciStatus::PageTimeout => 0x04,
            HciStatus::AuthenticationFailure => 0x05,
            HciStatus::PinKeyMissing => 0x06,
            HciStatus::MemoryCapacityExceeded => 0x07,
            HciStatus::ConnectionTimeout => 0x08,
            HciStatus::ConnectionLimitExceeded => 0x09,
            HciStatus::MaxConnectionsSync => 0x0A,
            HciStatus::AclDataExceeded => 0x0B,
            HciStatus::CommandDisallowed => 0x0C,
            HciStatus::RejectedResources => 0x0D,
            HciStatus::RejectedSecurity => 0x0E,
            HciStatus::RejectedPersonal => 0x0F,
            HciStatus::HostTimeout => 0x10,
            HciStatus::UnsupportedFeature => 0x11,
            HciStatus::InvalidParams => 0x12,
            HciStatus::RemoteUserEnded => 0x13,
            HciStatus::RemoteLowResources => 0x14,
            HciStatus::RemotePowerOff => 0x15,
            HciStatus::LocalHostTerminated => 0x16,
            HciStatus::RepeatedAttempts => 0x17,
            HciStatus::PairingNotAllowed => 0x18,
            HciStatus::UnknownLmpPdu => 0x19,
            HciStatus::UnsupportedRemote => 0x1A,
            HciStatus::ScoOffsetRejected => 0x1B,
            HciStatus::ScoIntervalRejected => 0x1C,
            HciStatus::AirModeRejected => 0x1D,
            HciStatus::InvalidLlParams => 0x1E,
            HciStatus::UnspecifiedError => 0x1F,
            HciStatus::UnsupportedParam => 0x20,
            HciStatus::RoleChangeNotAllowed => 0x21,
        }
    }

    pub fn to_byte(&self) -> (r: u8)
        ensures
            r == self.code(),
    {
        match self {
            HciStatus::Success => 0x00,
            HciStatus::UnknownCommand => 0x01,
            HciStatus::UnknownConnId => 0x02,
            HciStatus::HardwareFailure => 0x03,
            HciStatus::PageTimeout => 0x04,
            HciStatus::AuthenticationFailure => 0x05,
            HciStatus::PinKeyMissing => 0x06,
            HciStatus::MemoryCapacityExceeded => 0x07,
            HciStatus::ConnectionTimeout => 0x08,
            HciStatus::ConnectionLimitExceeded => 0x09,
            HciStatus::MaxConnectionsSync => 0x0A,
            HciStatus::AclDataExceeded => 0x0B,
            HciStatus::CommandDisallowed => 0x0C,
            HciStatus::RejectedResources => 0x0D,
            HciStatus::RejectedSecurity => 0x0E,
            HciStatus::RejectedPersonal => 0x0F,
            HciStatus::HostTimeout => 0x10,
            HciStatus::UnsupportedFeature => 0x11,
            HciStatus::InvalidParams => 0x12,
            HciStatus::RemoteUserEnded => 0x13,
            HciStatus::RemoteLowResources => 0x14,
            HciStatus::RemotePowerOff => 0x15,
            HciStatus::LocalHostTerminated => 0x16,
            HciStatus::RepeatedAttempts => 0x17,
            HciStatus::PairingNotAllowed => 0x18,
            HciStatus::UnknownLmpPdu => 0x19,
            HciStatus::UnsupportedRemote => 0x1A,
            HciStatus::ScoOffsetRejected => 0x1B,
            HciStatus::ScoIntervalRejected => 0x1C,
            HciStatus::AirModeRejected => 0x1D,
            HciStatus::InvalidLlParams => 0x1E,
            HciStatus::UnspecifiedError => 0x1F,
            HciStatus::UnsupportedParam => 0x20,
            HciStatus::RoleChangeNotAllowed => 0x21,
        }
    }

    /// Decodes a status byte; unknown values read as `UnspecifiedError`.
    pub fn from_byte(b: u8) -> (r: Self)
        ensures
            r.code() == b || (r == HciStatus::UnspecifiedError && forall|t: HciStatus| t.code() != b),
    {
        match b {
            0x00 => HciStatus::Success,
            0x01 => HciStatus::UnknownCommand,
            0x02 => HciStatus::UnknownConnId,
            0x03 => HciStatus::HardwareFailure,
            0x04 => HciStatus::PageTimeout,
            0x05 => HciStatus::AuthenticationFailure,
            0x06 => HciStatus::PinKeyMissing,
            0x07 => HciStatus::MemoryCapacityExceeded,
            0x08 => HciStatus::ConnectionTimeout,
            0x09 => HciStatus::ConnectionLimitExceeded,
            0x0A => HciStatus::MaxConnectionsSync,
            0x0B => HciStatus::AclDataExceeded,
            0x0C => HciStatus::CommandDisallowed,
            0x0D => HciStatus::RejectedResources,
            0x0E => HciStatus::RejectedSecurity,
            0x0F => HciStatus::RejectedPersonal,
            0x10 => HciStatus::HostTimeout,
            0x11 => HciStatus::UnsupportedFeature,
            0x12 => HciStatus::InvalidParams,
            0x13 => HciStatus::RemoteUserEnded,
            0x14 => HciStatus::RemoteLowResources,
            0x15 => HciStatus::RemotePowerOff,
            0x16 => HciStatus::LocalHostTerminated,
            0x17 => HciStatus::RepeatedAttempts,
            0x18 => HciStatus::PairingNotAllowed,
            0x19 => HciStatus::UnknownLmpPdu,
            0x1A => HciStatus::UnsupportedRemote,
            0x1B => HciStatus::ScoOffsetRejected,
            0x1C => HciStatus::ScoIntervalRejected,
            0x1D => HciStatus::AirModeRejected,
            0x1E => HciStatus::InvalidLlParams,
            0x1F => HciStatus::UnspecifiedError,
            0x20 => HciStatus::UnsupportedParam,
            0x21 => HciStatus::RoleChangeNotAllowed,
            _ => HciStatus::UnspecifiedError,
        }
    }
}


// ============================================================================
// Packet builders
// ============================================================================

/// Largest command frame: header plus 255 parameter bytes.
pub const HCI_MAX_CMD_SIZE: usize = 258;
/// Largest event frame: header plus 255 parameter bytes.
pub const HCI_MAX_EVT_SIZE: usize = 257;
/// Largest ACL frame: header plus 65535 data bytes.
pub const HCI_MAX_ACL_SIZE: usize = 65539;
/// Largest SCO frame.
pub const HCI_MAX_SCO_SIZE: usize = 258;
/// Transfer buffer size for USB HCI transfers.
pub const HCI_TRANSFER_BUF_SIZE: usize = 65536;
/// Number of queued command buffers.
pub const HCI_NUM_CMD_BUFS: usize = 16;

/// Copies `src[..n]` into `buf[at..at + n]`, leaving the rest of `buf` as it was.
fn copy_into(buf: &mut [u8], at: usize, src: &[u8], n: usize)
    requires
        n <= src@.len(),
        at + n <= old(buf)@.len(),
    ensures
        final(buf)@ == old(buf)@.subrange(0, at as int) + src@.subrange(0, n as int)
            + old(buf)@.subrange(at + n, old(buf)@.len() as int),
{
    let ghost orig = buf@;
    let blen = buf.len();
    let mut i: usize = 0;
    while i < n
        invariant
            i <= n <= src@.len(),
            at + n <= orig.len(),
            blen == orig.len(),
            buf@.len() == orig.len(),
            buf@ == orig.subrange(0, at as int) + src@.subrange(0, i as int)
                + orig.subrange(at + i, orig.len() as int),
        decreases n - i,
    {
        buf[at + i] = src[i];
        i = i + 1;
        assert(buf@ =~= orig.subrange(0, at as int) + src@.subrange(0, i as int)
            + orig.subrange(at + i, orig.len() as int));
    }
}

/// A command frame: type 0x01, opcode (little-endian), parameter length,
/// then as many parameters as fit after the four header bytes of a buffer of
/// `cap` bytes.
pub open spec fn spec_cmd_frame(opcode: u16, params: Seq<u8>, cap: nat) -> Seq<u8> {
    let n = if params.len() <= cap - 4 { params.len() } else { (cap - 4) as nat };
    seq![0x01u8, lo8(opcode), hi8(opcode), params.len() as u8] + params.take(n as int)
}

/// Builds an HCI command packet in `buf`: `[0x01 | opcode(2) | plen | params]`.
/// Returns the number of bytes written, or 0 (writing nothing) when the
/// buffer is shorter than the header or more than 255 parameters are given.
/// Parameters that do not fit are cut off.
pub fn build_hci_cmd(buf: &mut [u8], opcode: u16, params: &[u8]) -> (r: usize)
    ensures
        old(buf)@.len() < 4 || params@.len() > 255 ==> r == 0 && final(buf)@ == old(buf)@,
        !(old(buf)@.len() < 4 || params@.len() > 255) ==> {
            let f = spec_cmd_frame(opcode, params@, old(buf)@.len() as nat);
            &&& r == f.len()
            &&& final(buf)@ == f + old(buf)@.subrange(r as int, old(buf)@.len() as int)
        },
{
    if buf.len() < 4 || params.len() > 255 {
        return 0;
    }
    let param_len = params.len() as u8;
    buf[0] = 0x01;
    buf[1] = low_byte(opcode);
    buf[2] = high_byte(opcode);
    buf[3] = param_len;
    let copy_len = if params.len() <= buf.len() - 4 { params.len() } else { buf.len() - 4 };
    let ghost mid = buf@;
    copy_into(buf, 4, params, copy_len);
    proof {
        let f = spec_cmd_frame(opcode, params@, old(buf)@.len() as nat);
        assert(buf@ =~= f + old(buf)@.subrange(4 + copy_len, old(buf)@.len() as int));
    }
    4 + copy_len
}

/// The 16-bit handle/flags word of an ACL header.
pub open spec fn acl_handle_flags(handle: u16, pb_flag: u8, bc_flag: u8) -> u16 {
    (handle & 0x0FFF) | ((pb_flag as u16) << 12u16) | ((bc_flag as u16) << 14u16)
}

/// An ACL frame: type 0x02, handle/flags word, data length (both
/// little-endian), then the data bytes.
pub open spec fn spec_acl_frame(handle: u16, pb_flag: u8, bc_flag: u8, data: Seq<u8>) -> Seq<u8> {
    let hf = acl_handle_flags(handle, pb_flag, bc_flag);
    let n = data.len() as u16;
    seq![0x02u8, lo8(hf), hi8(hf), lo8(n), hi8(n)] + data
}

/// Builds an HCI ACL data packet in `buf`:
/// `[0x02 | handle+flags(2) | len(2) | data]`. The data is cut to what fits;
/// returns the bytes written, or 0 (writing nothing) for a buffer shorter
/// than five bytes.
pub fn build_hci_acl(buf: &mut [u8], handle: u16, pb_flag: u8, bc_flag: u8, data: &[u8]) -> (r: usize)
    ensures
        old(buf)@.len() < 5 ==> r == 0 && final(buf)@ == old(buf)@,
        old(buf)@.len() >= 5 ==> {
            let n = if data@.len() <= old(buf)@.len() - 5 { data@.len() } else { (old(buf)@.len() - 5) as nat };
            &&& n <= 65535 ==> {
                &&& r == 5 + n
                &&& final(buf)@ == spec_acl_frame(handle, pb_flag, bc_flag, data@.take(n as int))
                    + old(buf)@.subrange(r as int, old(buf)@.len() as int)
            }
            &&& n > 65535 ==> r == 0 && final(buf)@ == old(buf)@
        },
{
    if buf.len() < 5 {
        return 0;
    }
    let data_len = if data.len() <= buf.len() - 5 { data.len() } else { buf.len() - 5 };
    if data_len > 65535 {
        return 0;
    }
    let hf: u16 = (handle & 0x0FFF) | ((pb_flag as u16) << 12u16) | ((bc_flag as u16) << 14u16);
    let n = data_len as u16;
    buf[0] = 0x02;
    buf[1] = low_byte(hf);
    buf[2] = high_byte(hf);
    buf[3] = low_byte(n);
    buf[4] = high_byte(n);
    copy_into(buf, 5, data, data_len);
    proof {
        let f = spec_acl_frame(handle, pb_flag, bc_flag, data@.take(data_len as int));
        assert(data@.take(data_len as int) =~= data@.subrange(0, data_len as int));
        assert(buf@ =~= f + old(buf)@.subrange(5 + data_len, old(buf)@.len() as int));
    }
    5 + data_len
}

/// An SCO frame: type 0x03, handle low byte, handle bits 8-11, data length
/// (low 8 bits), then the data.
pub open spec fn spec_sco_frame(handle: u16, data: Seq<u8>) -> Seq<u8> {
    seq![0x03u8, lo8(handle), ((handle as int / 256) % 16) as u8, (data.len() % 256) as u8] + data
}

/// Builds an HCI SCO data packet in `buf`; the data is cut to what fits.
/// Returns the bytes written, or 0 (writing nothing) for a buffer shorter
/// than four bytes.
pub fn build_hci_sco(buf: &mut [u8], handle: u16, data: &[u8]) -> (r: usize)
    ensures
        old(buf)@.len() < 4 ==> r == 0 && final(buf)@ == old(buf)@,
        old(buf)@.len() >= 4 ==> {
            let n = if data@.len() <= old(buf)@.len() - 4 { data@.len() } else { (old(buf)@.len() - 4) as nat };
            &&& r == 4 + n
            &&& final(buf)@ == spec_sco_frame(handle, data@.take(n as int))
                + old(buf)@.subrange(r as int, old(buf)@.len() as int)
        },
{
    if buf.len() < 4 {
        return 0;
    }
    let data_len = if data.len() <= buf.len() - 4 { data.len() } else { buf.len() - 4 };
    buf[0] = 0x03;
    buf[1] = low_byte(handle);
    buf[2] = ((handle / 256) % 16) as u8;
    buf[3] = (data_len % 256) as u8;
    copy_into(buf, 4, data, data_len);
    proof {
        let f = spec_sco_frame(handle, data@.take(data_len as int));
        assert(buf@ =~= f + old(buf)@.subrange(4 + data_len, old(buf)@.len() as int));
    }
    4 + data_len
}

// ============================================================================
// Packet parsers
// ============================================================================

/// The (opcode, status, parameter offset) of a well-formed Command Complete
/// event frame: at least 8 bytes, type 0x04, event 0x0E, a parameter length
/// of at least 4 that fits in the buffer.
pub open spec fn spec_parse_cmd_complete(buf: Seq<u8>) -> Option<(u16, u8, usize)> {
    if buf.len() >= 8 && buf[0] == 0x04 && buf[1] == 0x0E && buf[2] >= 4
        && 3 + buf[2] as int <= buf.len() {
        Some((u16_le(buf[4], buf[5]), buf[6], 7usize))
    } else {
        None
    }
}

/// Parses an HCI Command Complete event; returns (opcode, status, offset of
/// the return parameters).
pub fn parse_cmd_complete(buf: &[u8]) -> (r: Option<(u16, u8, usize)>)
    ensures
        r == spec_parse_cmd_complete(buf@),
{
    if buf.len() < 8 {
        return None;
    }
    if buf[0] != 0x04 {
        return None;
    }
    if buf[1] != 0x0E {
        return None;
    }
    let param_len = buf[2] as usize;
    if param_len < 4 {
        return None;
    }
    if 3 + param_len > buf.len() {
        return None;
    }
    let opcode = read_u16_le(buf[4], buf[5]);
    let status = buf[6];
    Some((opcode, status, 7))
}

/// Whether `buf` is a Command Complete event for `expected_opcode` with
/// status 0.
pub open spec fn spec_cmd_success(buf: Seq<u8>, expected_opcode: u16) -> bool {
    match spec_parse_cmd_complete(buf) {
        Some((op, st, _)) => op == expected_opcode && st == 0,
        None => false,
    }
}

/// Returns true when `buf` is a successful Command Complete for
/// `expected_opcode`.
pub fn check_cmd_success(buf: &[u8], expected_opcode: u16) -> (r: bool)
    ensures
        r == spec_cmd_success(buf@, expected_opcode),
{
    match parse_cmd_complete(buf) {
        Some((opcode, status, _params)) => opcode == expected_opcode && status == 0,
        None => false,
    }
}

/// The fields of an ACL header: handle (12 bits), packet-boundary flag,
/// broadcast flag, data length.
pub open spec fn spec_parse_acl_header(buf: Seq<u8>) -> Option<(u16, u8, u8, u16)> {
    if buf.len() >= 5 && buf[0] == 0x02 {
        let hf = u16_le(buf[1], buf[2]);
        Some(((hf as int % 4096) as u16, ((hf as int / 4096) % 4) as u8, (hf as int / 16384) as u8,
            u16_le(buf[3], buf[4])))
    } else {
        None
    }
}

/// Parses an HCI ACL data header: (handle, pb_flag, bc_flag, data_length).
pub fn parse_acl_header(buf: &[u8]) -> (r: Option<(u16, u8, u8, u16)>)
    ensures
        r == spec_parse_acl_header(buf@),
{
    if buf.len() < 5 {
        return None;
    }
    if buf[0] != 0x02 {
        return None;
    }
    let hf = read_u16_le(buf[1], buf[2]);
    let handle = hf % 4096;
    let pb = ((hf / 4096) % 4) as u8;
    let bc = (hf / 16384) as u8;
    let data_len = read_u16_le(buf[3], buf[4]);
    Some((handle, pb, bc, data_len))
}

/// Parses an HCI event header: (event code, parameter length).
pub fn parse_event_header(buf: &[u8]) -> (r: Option<(u8, u8)>)
    ensures
        r == (if buf@.len() >= 3 && buf@[0] == 0x04 { Some((buf@[1], buf@[2])) } else { None }),
{
    if buf.len() < 3 {
        return None;
    }
    if buf[0] != 0x04 {
        return None;
    }
    Some((buf[1], buf[2]))
}

/// The ACL handle/flags word packs the handle and both flags into disjoint
/// bits when the flags are two-bit values.
pub proof fn lemma_acl_handle_flags_arith(handle: u16, pb: u8, bc: u8)
    requires
        pb < 4,
        bc < 4,
    ensures
        acl_handle_flags(handle, pb, bc) as int == handle as int % 4096 + pb as int * 4096
            + bc as int * 16384,
{
    let hf = acl_handle_flags(handle, pb, bc);
    assert(hf == (handle & 0x0FFF) | ((pb as u16) << 12u16) | ((bc as u16) << 14u16));
    assert(pb < 4 && bc < 4 ==> ((handle & 0x0FFF) | ((pb as u16) << 12u16) | ((bc as u16) << 14u16))
        == (handle % 4096) + (pb as u16) * 4096 + (bc as u16) * 16384) by (bit_vector);
}

/// Reading back the header of a built ACL frame gives the handle's low 12
/// bits, both flags and the data length, for two-bit flags.
pub proof fn lemma_acl_build_parse(handle: u16, pb: u8, bc: u8, data: Seq<u8>)
    requires
        pb < 4,
        bc < 4,
        data.len() <= 65535,
    ensures
        spec_parse_acl_header(spec_acl_frame(handle, pb, bc, data))
            == Some(((handle as int % 4096) as u16, pb, bc, data.len() as u16)),
{
    lemma_acl_handle_flags_arith(handle, pb, bc);
    let f = spec_acl_frame(handle, pb, bc, data);
    let hf = acl_handle_flags(handle, pb, bc);
    lemma_le16_roundtrip(hf);
    lemma_le16_roundtrip(data.len() as u16);
    assert(f[1] == lo8(hf) && f[2] == hi8(hf));
}

// ============================================================================
// Device address
// ============================================================================

/// Bluetooth device address (6 bytes, little-endian on the wire).
#[derive(Clone, Copy, Debug)]
pub struct BdAddr(pub [u8; 6]);

impl PartialEq for BdAddr {
    fn eq(&self, other: &Self) -> (r: bool) {
        self.same(other)
    }
}

impl Eq for BdAddr {}

impl vstd::std_specs::cmp::PartialEqSpecImpl for BdAddr {
    open spec fn obeys_eq_spec() -> bool {
        true
    }

    open spec fn eq_spec(&self, other: &Self) -> bool {
        self.0@ == other.0@
    }
}

/// The value of a hexadecimal digit (either case).
pub open spec fn hex_value(c: u8) -> Option<u8> {
    if 0x30 <= c <= 0x39 {
        Some((c - 0x30) as u8)
    } else if 0x41 <= c <= 0x46 {
        Some((c - 0x41 + 10) as u8)
    } else if 0x61 <= c <= 0x66 {
        Some((c - 0x61 + 10) as u8)
    } else {
        None
    }
}

/// The byte written as hex digits `hi`, `lo`.
pub open spec fn hex_pair(hi: u8, lo: u8) -> Option<u8> {
    match (hex_value(hi), hex_value(lo)) {
        (Some(h), Some(l)) => Some((h * 16 + l) as u8),
        _ => None,
    }
}

/// The address written as text `t` ("AA:BB:CC:DD:EE:FF", most significant
/// byte first, hex digits of either case).
pub open spec fn spec_parse_addr(t: Seq<u8>) -> Option<Seq<u8>> {
    if t.len() != 17 || t[2] != 0x3A || t[5] != 0x3A || t[8] != 0x3A || t[11] != 0x3A || t[14] != 0x3A {
        None
    } else {
        match (hex_pair(t[0], t[1]), hex_pair(t[3], t[4]), hex_pair(t[6], t[7]), hex_pair(t[9], t[10]),
            hex_pair(t[12], t[13]), hex_pair(t[15], t[16])) {
            (Some(a5), Some(a4), Some(a3), Some(a2), Some(a1), Some(a0)) => Some(seq![a0, a1, a2, a3, a4, a5]),
            _ => None,
        }
    }
}

proof fn lemma_hex_byte_text(b: u8)
    ensures
        hex_pair(hex_digit(b / 16), hex_digit(b % 16)) == Some(b),
{
}

/// Reading back the text of an address gives the address.
pub proof fn lemma_addr_text_roundtrip(a: Seq<u8>)
    requires
        a.len() == 6,
    ensures
        spec_parse_addr(spec_addr_text(a)) == Some(a),
{
    lemma_hex_byte_text(a[0]);
    lemma_hex_byte_text(a[1]);
    lemma_hex_byte_text(a[2]);
    lemma_hex_byte_text(a[3]);
    lemma_hex_byte_text(a[4]);
    lemma_hex_byte_text(a[5]);
    assert(seq![a[0], a[1], a[2], a[3], a[4], a[5]] =~= a);
}

fn hex_val(c: u8) -> (r: Option<u8>)
    ensures
        r == hex_value(c),
{
    if 0x30 <= c && c <= 0x39 {
        Some(c - 0x30)
    } else if 0x41 <= c && c <= 0x46 {
        Some(c - 0x41 + 10)
    } else if 0x61 <= c && c <= 0x66 {
        Some(c - 0x61 + 10)
    } else {
        None
    }
}

fn hex_byte(hi: u8, lo: u8) -> (r: Option<u8>)
    ensures
        r == hex_pair(hi, lo),
{
    match (hex_val(hi), hex_val(lo)) {
        (Some(h), Some(l)) => Some(h * 16 + l),
        _ => None,
    }
}

/// Upper-case hexadecimal digit for a nibble.
pub open spec fn hex_digit(n: u8) -> u8 {
    if n < 10 { (0x30 + n) as u8 } else { (0x41 + n - 10) as u8 }
}

/// The address as "AA:BB:CC:DD:EE:FF", most significant byte first.
pub open spec fn spec_addr_text(a: Seq<u8>) -> Seq<u8> {
    seq![
        hex_digit(a[5] / 16), hex_digit(a[5] % 16), 0x3Au8,
        hex_digit(a[4] / 16), hex_digit(a[4] % 16), 0x3Au8,
        hex_digit(a[3] / 16), hex_digit(a[3] % 16), 0x3Au8,
        hex_digit(a[2] / 16), hex_digit(a[2] % 16), 0x3Au8,
        hex_digit(a[1] / 16), hex_digit(a[1] % 16), 0x3Au8,
        hex_digit(a[0] / 16), hex_digit(a[0] % 16)
    ]
}

fn hex_of(n: u8) -> (r: u8)
    requires
        n < 16,
    ensures
        r == hex_digit(n),
{
    if n < 10 { 0x30 + n } else { 0x41 + n - 10 }
}

impl BdAddr {
    pub fn new(bytes: [u8; 6]) -> (r: Self)
        ensures
            r.0@ == bytes@,
    {
        BdAddr(bytes)
    }

    /// Formats the address as colon-separated upper-case hex, most
    /// significant byte first, into `buf`. Returns 17, or 0 (writing
    /// nothing) when `buf` is shorter than 18 bytes.
    pub fn format(&self, buf: &mut [u8]) -> (r: usize)
        ensures
            old(buf)@.len() < 18 ==> r == 0 && final(buf)@ == old(buf)@,
            old(buf)@.len() >= 18 ==> r == 17 && final(buf)@ == spec_addr_text(self.0@)
                + old(buf)@.subrange(17, old(buf)@.len() as int),
    {
        if buf.len() < 18 {
            return 0;
        }
        let ghost orig = buf@;
        let mut pos: usize = 0;
        let mut i: usize = 0;
        while i < 6
            invariant
                0 <= i <= 6,
                buf@.len() == orig.len(),
                orig.len() >= 18,
                pos == if i == 0 { 0 } else { 3 * i - 1 },
                forall|k: int| 0 <= k < pos ==> buf@[k] == #[trigger] spec_addr_text(self.0@)[k],
                forall|k: int| pos <= k < orig.len() ==> buf@[k] == #[trigger] orig[k],
            decreases 6 - i,
        {
            let ghost prev = buf@;
            if i > 0 {
                buf[pos] = 0x3A;
                pos = pos + 1;
            }
            let b = self.0[5 - i];
            buf[pos] = hex_of(b / 16);
            pos = pos + 1;
            buf[pos] = hex_of(b % 16);
            pos = pos + 1;
            i = i + 1;
        }
        assert(buf@ =~= spec_addr_text(self.0@) + orig.subrange(17, orig.len() as int));
        pos
    }

    /// Byte-wise equality of two addresses.
    pub fn same(&self, other: &BdAddr) -> (r: bool)
        ensures
            r == (self.0@ == other.0@),
    {
        let mut i: usize = 0;
        while i < 6
            invariant
                0 <= i <= 6,
                forall|j: int| 0 <= j < i ==> self.0@[j] == other.0@[j],
            decreases 6 - i,
        {
            if self.0[i] != other.0[i] {
                return false;
            }
            i = i + 1;
        }
        assert(self.0@ =~= other.0@);
        true
    }

    /// The all-zero address.
    pub fn null() -> (r: Self)
        ensures
            r.0@ == seq![0u8, 0u8, 0u8, 0u8, 0u8, 0u8],
    {
        let r = BdAddr([0u8; 6]);
        assert(r.0@ =~= seq![0u8, 0u8, 0u8, 0u8, 0u8, 0u8]);
        r
    }

    /// True when every byte of the address is zero.
    pub fn is_null(&self) -> (r: bool)
        ensures
            r == (forall|i: int| 0 <= i < 6 ==> self.0@[i] == 0),
    {
        self.is_empty()
    }

    /// Reads an address written as "AA:BB:CC:DD:EE:FF" (most significant
    /// byte first, hex digits of either case).
    pub fn parse(text: &str) -> (r: Option<Self>)
        ensures
            match spec_parse_addr(text.spec_bytes()) {
                Some(a) => r matches Some(x) && x.0@ == a,
                None => r is None,
            },
    {
        let t = text.as_bytes();
        if t.len() != 17 || t[2] != 0x3A || t[5] != 0x3A || t[8] != 0x3A || t[11] != 0x3A || t[14] != 0x3A {
            return None;
        }
        match (hex_byte(t[0], t[1]), hex_byte(t[3], t[4]), hex_byte(t[6], t[7]), hex_byte(t[9], t[10]),
            hex_byte(t[12], t[13]), hex_byte(t[15], t[16])) {
            (Some(a5), Some(a4), Some(a3), Some(a2), Some(a1), Some(a0)) => {
                let r = BdAddr([a0, a1, a2, a3, a4, a5]);
                assert(r.0@ =~= seq![a0, a1, a2, a3, a4, a5]);
                Some(r)
            },
            _ => None,
        }
    }

    /// True when every byte of the address is zero.
    pub fn is_empty(&self) -> (r: bool)
        ensures
            r == (forall|i: int| 0 <= i < 6 ==> self.0@[i] == 0),
    {
        let mut i: usize = 0;
        while i < 6
            invariant
                0 <= i <= 6,
                forall|j: int| 0 <= j < i ==> self.0@[j] == 0,
            decreases 6 - i,
        {
            if self.0[i] != 0 {
                return false;
            }
            i = i + 1;
        }
        true
    }
}

// ============================================================================
// Transport state
// ============================================================================

/// State of the HCI controller.
#[derive(Clone, Copy, PartialEq, Eq, Debug, Structural)]
pub enum HciState {
    /// Initial state, waiting for reset.
    Reset,
    /// Reset done, being configured.
    Configuring,
    /// Ready for commands and data.
    Up,
    /// Down, radio off.
    Down,
    /// Fatal error.
    Error,
}

impl HciState {
    /// Numeric value of this state.
    pub open spec fn code(self) -> u8 {
        match self {
            HciState::Reset => 0,
            HciState::Configuring => 1,
            HciState::Up => 2,
            HciState::Down => 3,
            HciState::Error => 4,
        }
    }

    pub fn to_byte(&self) -> (r: u8)
        ensures
            r == self.code(),
    {
        match self {
            HciState::Reset => 0,
            HciState::Configuring => 1,
            HciState::Up => 2,
            HciState::Down => 3,
            HciState::Error => 4,
        }
    }
}

} // verus!
