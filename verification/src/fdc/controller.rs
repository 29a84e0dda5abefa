use vstd::prelude::*;

use crate::fdc::disk::{dv_first_info, dv_sector_data, dv_track_at, dv_wf, Disk, DiskView};
use vstd::arithmetic::power2::{lemma2_to64, lemma_pow2_pos, lemma_pow2_strictly_increases, pow2};

verus! {

pub const MSR_RQM: u8 = 0x80;
pub const MSR_DIO: u8 = 0x40;
pub const MSR_EXM: u8 = 0x20;
pub const MSR_CB: u8 = 0x10;
pub const MSR_D3B: u8 = 0x08;
pub const MSR_D2B: u8 = 0x04;
pub const MSR_D1B: u8 = 0x02;
pub const MSR_D0B: u8 = 0x01;

pub const CMD_READ_DATA: u8 = 0x06;
pub const CMD_WRITE_DATA: u8 = 0x05;
pub const CMD_READ_DELETED: u8 = 0x0C;
pub const CMD_WRITE_DELETED: u8 = 0x09;
pub const CMD_READ_TRACK: u8 = 0x02;
pub const CMD_READ_ID: u8 = 0x0A;
pub const CMD_FORMAT_TRACK: u8 = 0x0D;
pub const CMD_SCAN_EQUAL: u8 = 0x11;
pub const CMD_SCAN_LOW_OR_EQUAL: u8 = 0x19;
pub const CMD_SCAN_HIGH_OR_EQUAL: u8 = 0x1D;
pub const CMD_RECALIBRATE: u8 = 0x07;
pub const CMD_SEEK: u8 = 0x0F;
pub const CMD_SPECIFY: u8 = 0x03;
pub const CMD_SENSE_DRIVE_STATUS: u8 = 0x04;
pub const CMD_SENSE_INT_STATUS: u8 = 0x08;
pub const CMD_VERSION: u8 = 0x10;

pub const ST0_IC_MASK: u8 = 0xC0;
pub const ST0_IC_NT: u8 = 0x00;
pub const ST0_IC_AT: u8 = 0x40;
pub const ST0_IC_IC: u8 = 0x80;
pub const ST0_IC_RC: u8 = 0xC0;
pub const ST0_SE: u8 = 0x20;
pub const ST0_EC: u8 = 0x10;
pub const ST0_NR: u8 = 0x08;
pub const ST0_HD: u8 = 0x04;
pub const ST0_US1: u8 = 0x02;
pub const ST0_US0: u8 = 0x01;

pub const ST1_EN: u8 = 0x80;
pub const ST1_DE: u8 = 0x20;
pub const ST1_OR: u8 = 0x10;
pub const ST1_ND: u8 = 0x04;
pub const ST1_NW: u8 = 0x02;
pub const ST1_MA: u8 = 0x01;

pub const ST2_CM: u8 = 0x40;
pub const ST2_DD: u8 = 0x20;
pub const ST2_WC: u8 = 0x10;
pub const ST2_SH: u8 = 0x08;
pub const ST2_SN: u8 = 0x04;
pub const ST2_BC: u8 = 0x02;
pub const ST2_MD: u8 = 0x01;

pub const ST3_FT: u8 = 0x80;
pub const ST3_WP: u8 = 0x40;
pub const ST3_RY: u8 = 0x20;
pub const ST3_T0: u8 = 0x10;
pub const ST3_TS: u8 = 0x08;
pub const ST3_HD: u8 = 0x04;
pub const ST3_US1: u8 = 0x02;
pub const ST3_US0: u8 = 0x01;

/// The commands of the uPD765.
#[derive(Clone, Copy, PartialEq, Eq, Debug, Structural)]
pub enum Command {
    ReadData,
    WriteData,
    ReadDeletedData,
    WriteDeletedData,
    ReadTrack,
    ReadID,
    FormatTrack,
    ScanEqual,
    ScanLowOrEqual,
    ScanHighOrEqual,
    Recalibrate,
    Seek,
    Specify,
    SenseDriveStatus,
    SenseIntStatus,
    Version,
    Invalid,
}

/// The command an opcode byte starts: the MT/MF/SK flag bits of the data
/// commands are ignored.
pub open spec fn spec_parse_opcode(opcode: u8) -> Command {
    if opcode & 0x1F == CMD_READ_DATA {
        Command::ReadData
    } else if opcode & 0x1F == CMD_READ_DELETED {
        Command::ReadDeletedData
    } else if opcode & 0x3F == CMD_WRITE_DATA {
        Command::WriteData
    } else if opcode & 0x3F == CMD_WRITE_DELETED {
        Command::WriteDeletedData
    } else if opcode & 0x9F == CMD_READ_TRACK {
        Command::ReadTrack
    } else if opcode & 0xBF == CMD_READ_ID {
        Command::ReadID
    } else if opcode & 0xBF == CMD_FORMAT_TRACK {
        Command::FormatTrack
    } else if opcode & 0x1F == CMD_SCAN_EQUAL {
        Command::ScanEqual
    } else if opcode & 0x1F == CMD_SCAN_LOW_OR_EQUAL {
        Command::ScanLowOrEqual
    } else if opcode & 0x1F == CMD_SCAN_HIGH_OR_EQUAL {
        Command::ScanHighOrEqual
    } else if opcode == CMD_SENSE_DRIVE_STATUS {
        Command::SenseDriveStatus
    } else if opcode == CMD_SPECIFY {
        Command::Specify
    } else if opcode == CMD_SENSE_INT_STATUS {
        Command::SenseIntStatus
    } else if opcode == CMD_RECALIBRATE {
        Command::Recalibrate
    } else if opcode == CMD_SEEK {
        Command::Seek
    } else if opcode == CMD_VERSION {
        Command::Version
    } else {
        Command::Invalid
    }
}

/// Number of command bytes, opcode included.
pub open spec fn spec_expected_length(c: Command) -> u8 {
    match c {
        Command::ReadData | Command::WriteData | Command::ReadDeletedData
        | Command::WriteDeletedData | Command::ReadTrack | Command::ScanEqual
        | Command::ScanLowOrEqual | Command::ScanHighOrEqual => 9,
        Command::ReadID | Command::Recalibrate | Command::SenseDriveStatus => 2,
        Command::FormatTrack => 6,
        Command::Seek | Command::Specify => 3,
        Command::SenseIntStatus | Command::Version | Command::Invalid => 1,
    }
}

/// The command keeps the controller busy (CB) while it executes.
pub open spec fn spec_is_fdc_busy(c: Command) -> bool {
    match c {
        Command::ReadData | Command::WriteData | Command::ReadDeletedData
        | Command::WriteDeletedData | Command::ReadTrack | Command::ReadID
        | Command::FormatTrack => true,
        _ => false,
    }
}

/// The command transfers data to the CPU during execution.
pub open spec fn spec_is_executing_read(c: Command) -> bool {
    c == Command::ReadData || c == Command::ReadDeletedData || c == Command::ReadTrack
}

/// The command takes data from the CPU during execution.
pub open spec fn spec_is_executing_write(c: Command) -> bool {
    c == Command::WriteData || c == Command::WriteDeletedData || c == Command::FormatTrack
        || c == Command::ScanEqual || c == Command::ScanLowOrEqual || c == Command::ScanHighOrEqual
}

/// The command moves sector data (reads, writes, scans).
pub open spec fn is_transfer(c: Command) -> bool {
    spec_is_executing_read(c) || c == Command::WriteData || c == Command::WriteDeletedData
        || c == Command::ScanEqual || c == Command::ScanLowOrEqual || c == Command::ScanHighOrEqual
}

/// The command leads to a result phase (Seek, Recalibrate and Specify do not).
pub open spec fn has_result_phase(c: Command) -> bool {
    c != Command::Seek && c != Command::Recalibrate && c != Command::Specify
}

impl Command {
    pub fn parse_opcode(opcode: u8) -> (c: Self)
        ensures
            c == spec_parse_opcode(opcode),
    {
        if opcode & 0b11111 == CMD_READ_DATA {
            Self::ReadData
        } else if opcode & 0b11111 == CMD_READ_DELETED {
            Self::ReadDeletedData
        } else if opcode & 0b111111 == CMD_WRITE_DATA {
            Self::WriteData
        } else if opcode & 0b111111 == CMD_WRITE_DELETED {
            Self::WriteDeletedData
        } else if opcode & 0b10011111 == CMD_READ_TRACK {
            Self::ReadTrack
        } else if opcode & 0b10111111 == CMD_READ_ID {
            Self::ReadID
        } else if opcode & 0b10111111 == CMD_FORMAT_TRACK {
            Self::FormatTrack
        } else if opcode & 0b11111 == CMD_SCAN_EQUAL {
            Self::ScanEqual
        } else if opcode & 0b11111 == CMD_SCAN_LOW_OR_EQUAL {
            Self::ScanLowOrEqual
        } else if opcode & 0b11111 == CMD_SCAN_HIGH_OR_EQUAL {
            Self::ScanHighOrEqual
        } else if opcode == CMD_SENSE_DRIVE_STATUS {
            Self::SenseDriveStatus
        } else if opcode == CMD_SPECIFY {
            Self::Specify
        } else if opcode == CMD_SENSE_INT_STATUS {
            Self::SenseIntStatus
        } else if opcode == CMD_RECALIBRATE {
            Self::Recalibrate
        } else if opcode == CMD_SEEK {
            Self::Seek
        } else if opcode == CMD_VERSION {
            Self::Version
        } else {
            Command::Invalid
        }
    }

    pub fn expected_length(&self) -> (r: u8)
        ensures
            r == spec_expected_length(*self),
            1 <= r <= 9,
    {
        match self {
            Command::ReadData => 9,
            Command::WriteData => 9,
            Command::ReadDeletedData => 9,
            Command::WriteDeletedData => 9,
            Command::ReadTrack => 9,
            Command::ReadID => 2,
            Command::FormatTrack => 6,
            Command::ScanEqual => 9,
            Command::ScanLowOrEqual => 9,
            Command::ScanHighOrEqual => 9,
            Command::Recalibrate => 2,
            Command::Seek => 3,
            Command::Specify => 3,
            Command::SenseDriveStatus => 2,
            Command::SenseIntStatus => 1,
            Command::Version => 1,
            Command::Invalid => 1,
        }
    }

    pub fn is_fdc_busy(&self) -> (r: bool)
        ensures
            r == spec_is_fdc_busy(*self),
    {
        match self {
            Command::ReadData | Command::WriteData | Command::ReadDeletedData
            | Command::WriteDeletedData | Command::ReadTrack | Command::ReadID
            | Command::FormatTrack => true,
            _ => false,
        }
    }

    /// A Seek or Recalibrate is moving the heads of `drive` (the drive
    /// number is the low two bits of `value`).
    pub fn is_drive_busy(&self, drive: Drive, value: u8) -> (r: bool)
        ensures
            r == ((*self == Command::Seek || *self == Command::Recalibrate) && value & 0x03
                == spec_drive_index(drive)),
    {
        let selected_drive = Drive::from_index(drive_bits(value));
        match self {
            Self::Seek | Self::Recalibrate => selected_drive == drive,
            _ => false,
        }
    }

    pub fn is_executing_read(&self) -> (r: bool)
        ensures
            r == spec_is_executing_read(*self),
    {
        match self {
            Self::ReadData | Self::ReadDeletedData | Self::ReadTrack => true,
            _ => false,
        }
    }

    /// The command ends in a result phase (Seek, Recalibrate and Specify do not).
    pub fn leads_to_result(&self) -> (r: bool)
        ensures
            r == has_result_phase(*self),
    {
        match self {
            Self::Seek | Self::Recalibrate | Self::Specify => false,
            _ => true,
        }
    }

    pub fn is_executing_write(&self) -> (r: bool)
        ensures
            r == spec_is_executing_write(*self),
    {
        match self {
            Self::WriteData | Self::WriteDeletedData | Self::FormatTrack | Self::ScanEqual
            | Self::ScanLowOrEqual | Self::ScanHighOrEqual => true,
            _ => false,
        }
    }
}

/// The four drive selects.
#[derive(Clone, Copy, PartialEq, Eq, Debug, Structural)]
pub enum Drive {
    Drive0,
    Drive1,
    Drive2,
    Drive3,
}

pub open spec fn spec_drive_index(d: Drive) -> u8 {
    match d {
        Drive::Drive0 => 0,
        Drive::Drive1 => 1,
        Drive::Drive2 => 2,
        Drive::Drive3 => 3,
    }
}

pub open spec fn spec_drive_from(v: u8) -> Drive {
    if v == 0 {
        Drive::Drive0
    } else if v == 1 {
        Drive::Drive1
    } else if v == 2 {
        Drive::Drive2
    } else {
        Drive::Drive3
    }
}

impl Drive {
    pub fn index(&self) -> (r: usize)
        ensures
            r == spec_drive_index(*self),
            r < 4,
    {
        match self {
            Drive::Drive0 => 0,
            Drive::Drive1 => 1,
            Drive::Drive2 => 2,
            Drive::Drive3 => 3,
        }
    }

    pub fn from_index(value: u8) -> (d: Drive)
        requires
            value < 4,
        ensures
            d == spec_drive_from(value),
            spec_drive_index(d) == value,
    {
        match value {
            0 => Self::Drive0,
            1 => Self::Drive1,
            2 => Self::Drive2,
            _ => Self::Drive3,
        }
    }
}

/// The two controller revisions.
#[derive(Clone, Copy, PartialEq, Eq, Debug, Structural)]
pub enum Variant {
    Upd765A,
    Upd765B,
}

/// The phase of the command protocol.
#[derive(Clone, Copy, PartialEq, Eq, Debug, Structural)]
pub enum Phase {
    Command,
    Execution,
    Result,
}

/// The uPD765 floppy disk controller with up to four drives.
pub struct Controller {
    pub variant: Variant,
    pub phase: Phase,
    pub motor_state: bool,
    pub disks: [Option<Disk>; 4],
    pub drive_ready: [bool; 4],
    pub drive_at_track0: [bool; 4],
    pub drive_write_protected: [bool; 4],
    pub drive_two_sided: [bool; 4],
    pub command: Command,
    pub buffer: [u8; 9],
    pub buffer_idx: u8,
    pub st0: u8,
    pub st1: u8,
    pub st2: u8,
    pub st3: u8,
    pub pcn: [u8; 4],
    pub interrupt: bool,
    pub seek_pending: bool,
    pub seek_drive: Drive,
    pub seek_target: u8,
    pub seek_cycles: u64,
    pub exec_remaining: u32,
    pub exec_sector: u8,
    pub exec_sector_index: u32,
    pub exec_write_remaining: u32,
    pub expecting_deleted: bool,
    pub format_sectors_remaining: u32,
    pub exec_cycles: u64,
    pub format_byte_idx: u8,
    pub weak_counter: u32,
    pub seek_is_recalibrate: bool,
}

/// The model of the controller.
pub struct ControllerView {
    pub variant: Variant,
    pub phase: Phase,
    pub motor_state: bool,
    pub disks: Seq<Option<DiskView>>,
    pub drive_ready: Seq<bool>,
    pub drive_at_track0: Seq<bool>,
    pub drive_write_protected: Seq<bool>,
    pub drive_two_sided: Seq<bool>,
    pub command: Command,
    pub buffer: Seq<u8>,
    pub buffer_idx: u8,
    pub st0: u8,
    pub st1: u8,
    pub st2: u8,
    pub st3: u8,
    pub pcn: Seq<u8>,
    pub interrupt: bool,
    pub seek_pending: bool,
    pub seek_drive: Drive,
    pub seek_target: u8,
    pub seek_cycles: u64,
    pub exec_remaining: u32,
    pub exec_sector: u8,
    pub exec_sector_index: u32,
    pub exec_write_remaining: u32,
    pub expecting_deleted: bool,
    pub format_sectors_remaining: u32,
    pub exec_cycles: u64,
    pub format_byte_idx: u8,
    pub weak_counter: u32,
    pub seek_is_recalibrate: bool,
}

/// The model of an optional disk.
pub open spec fn disk_view(d: Option<Disk>) -> Option<DiskView> {
    match d {
        Some(d) => Some(d@),
        None => None,
    }
}

impl View for Controller {
    type V = ControllerView;

    open spec fn view(&self) -> ControllerView {
        ControllerView {
            variant: self.variant,
            phase: self.phase,
            motor_state: self.motor_state,
            disks: self.disks@.map_values(|d: Option<Disk>| disk_view(d)),
            drive_ready: self.drive_ready@,
            drive_at_track0: self.drive_at_track0@,
            drive_write_protected: self.drive_write_protected@,
            drive_two_sided: self.drive_two_sided@,
            command: self.command,
            buffer: self.buffer@,
            buffer_idx: self.buffer_idx,
            st0: self.st0,
            st1: self.st1,
            st2: self.st2,
            st3: self.st3,
            pcn: self.pcn@,
            interrupt: self.interrupt,
            seek_pending: self.seek_pending,
            seek_drive: self.seek_drive,
            seek_target: self.seek_target,
            seek_cycles: self.seek_cycles,
            exec_remaining: self.exec_remaining,
            exec_sector: self.exec_sector,
            exec_sector_index: self.exec_sector_index,
            exec_write_remaining: self.exec_write_remaining,
            expecting_deleted: self.expecting_deleted,
            format_sectors_remaining: self.format_sectors_remaining,
            exec_cycles: self.exec_cycles,
            format_byte_idx: self.format_byte_idx,
            weak_counter: self.weak_counter,
            seek_is_recalibrate: self.seek_is_recalibrate,
        }
    }
}

// ----------------------------------------------------------------------
// The model of the controller's behaviour
// ----------------------------------------------------------------------
/// The drive the command addresses (bits 0-1 of the second command byte).
pub open spec fn cmd_drive(v: ControllerView) -> int {
    (v.buffer[1] & 0x03) as int
}

/// The head the command addresses (bit 2 of the second command byte).
pub open spec fn cmd_side(v: ControllerView) -> u8 {
    (v.buffer[1] >> 2u8) & 0x01
}

/// The sector size the command gives (N in the sixth command byte).
pub open spec fn cmd_sector_size(v: ControllerView) -> int {
    pow2((v.buffer[5] + 7) as nat) as int
}

/// The data of sector `id` on the addressed drive, track and head.
pub open spec fn cmd_sector(v: ControllerView, id: u8) -> Option<Seq<u8>> {
    match v.disks[cmd_drive(v)] {
        Some(d) => dv_sector_data(d, v.buffer[2], cmd_side(v), id),
        None => None,
    }
}

/// The tables have their sizes and the disks store all their tracks.
pub open spec fn storage_ok(v: ControllerView) -> bool {
    &&& v.disks.len() == 4
    &&& forall|i: int| 0 <= i < 4 ==> (#[trigger] v.disks[i] matches Some(d) ==> dv_wf(d))
    &&& v.drive_ready.len() == 4
    &&& v.drive_at_track0.len() == 4
    &&& v.drive_write_protected.len() == 4
    &&& v.drive_two_sided.len() == 4
    &&& v.buffer.len() == 9
    &&& v.pcn.len() == 4
}

/// The model is well formed: the disks store all their tracks; outside
/// execution the buffer index is inside the buffer; a partly written command
/// is shorter than its length; a transfer in execution has a sector size of
/// at most 2^31 and a byte index inside the sector; a format in execution
/// has a byte index below 4.
pub open spec fn view_wf(v: ControllerView) -> bool {
    &&& storage_ok(v)
    &&& v.phase != Phase::Execution ==> v.buffer_idx < 9
    &&& v.phase == Phase::Command && v.buffer_idx > 0 ==> v.buffer_idx < spec_expected_length(v.command)
    &&& v.phase == Phase::Execution && is_transfer(v.command) ==> {
        &&& v.buffer[5] <= 24
        &&& v.exec_sector_index < cmd_sector_size(v)
    }
    &&& v.phase == Phase::Execution && v.command == Command::FormatTrack ==> v.format_byte_idx < 4
}

/// Enter the result phase: the result bytes are placed at the end of the
/// buffer and the index points at the first of them.
#[verifier::opaque]
pub open spec fn spec_start_result(v0: ControllerView) -> ControllerView {
    let v = ControllerView { phase: Phase::Result, ..v0 };
    match v.command {
        Command::Version => {
            let st0: u8 = if v.variant == Variant::Upd765A { 0x80 } else { 0x90 };
            ControllerView { st0, buffer: seq![0u8, 0, 0, 0, 0, 0, 0, 0, st0], buffer_idx: 8, ..v }
        },
        Command::ReadData | Command::ReadDeletedData | Command::WriteData
        | Command::WriteDeletedData | Command::ReadTrack | Command::FormatTrack
        | Command::ScanEqual | Command::ScanLowOrEqual | Command::ScanHighOrEqual => {
            let eot = v.buffer[6];
            let c: u8 = if v.exec_sector > eot { ((v.buffer[2] + 1) % 256) as u8 } else { v.buffer[2] };
            let r: u8 = if v.exec_sector > eot { 0 } else { v.exec_sector };
            ControllerView {
                buffer: seq![0u8, 0, v.st0, v.st1, v.st2, c, v.buffer[3], r, v.buffer[5]],
                buffer_idx: 2,
                ..v
            }
        },
        Command::ReadID => {
            let d = cmd_drive(v);
            let info: (u8, u8, u8, u8) = match v.disks[d] {
                Some(disk) => match dv_first_info(disk, v.pcn[d], cmd_side(v)) {
                    Some(f) => f,
                    None => (0, 0, 0, 0),
                },
                None => (0, 0, 0, 0),
            };
            ControllerView {
                buffer: seq![0u8, 0, v.st0, v.st1, v.st2, info.0, info.1, info.2, info.3],
                buffer_idx: 2,
                ..v
            }
        },
        Command::SenseIntStatus => {
            let pcn: u8 = if v.st0 & 0x80 != 0 { 0 } else { v.pcn[spec_drive_index(v.seek_drive) as int] };
            ControllerView { buffer: seq![0u8, 0, 0, 0, 0, 0, 0, v.st0, pcn], buffer_idx: 7, ..v }
        },
        Command::SenseDriveStatus => {
            let d = cmd_drive(v);
            let st3: u8 = ((if v.drive_write_protected[d] { 0x40int } else { 0 }) + (if v.drive_ready[d] {
                0x20int
            } else {
                0
            }) + (if v.drive_at_track0[d] { 0x10int } else { 0 }) + (if !v.drive_two_sided[d] {
                0x08int
            } else {
                0
            }) + (v.buffer[1] & 0x04) + d) as u8;
            ControllerView { buffer: seq![0u8, 0, 0, 0, 0, 0, 0, 0, st3], buffer_idx: 8, ..v }
        },
        Command::Invalid => ControllerView {
            buffer: seq![0u8, 0, 0, 0, 0, 0, 0, 0, v.st0],
            buffer_idx: 8,
            ..v
        },
        _ => v,
    }
}

/// The model with the status bytes set.
pub open spec fn with_status(v: ControllerView, st0: u8, st1: u8, st2: u8) -> ControllerView {
    ControllerView { st0, st1, st2, ..v }
}

/// The drive is not ready for a data command: motor off, drive not ready,
/// or no disk.
pub open spec fn not_ready(v: ControllerView, d: int) -> bool {
    !v.motor_state || !v.drive_ready[d] || v.disks[d] is None
}

/// The addressed track is formatted on the disk in drive `d`.
pub open spec fn track_formatted(v: ControllerView, d: int, track: u8) -> bool {
    match v.disks[d] {
        Some(disk) => dv_track_at(disk, track, cmd_side(v)) is Some,
        None => false,
    }
}

/// A command whose bytes are all in: the execution phase begins (or the
/// result phase, for commands that do not transfer data).
pub open spec fn spec_start_execution(v0: ControllerView) -> ControllerView {
    let v = ControllerView { phase: Phase::Execution, ..v0 };
    let d = cmd_drive(v);
    let us = v.buffer[1] & 0x03;
    match v.command {
        Command::Version => spec_start_result(v),
        Command::Specify => ControllerView { phase: Phase::Command, buffer_idx: 0, ..v },
        Command::Seek | Command::Recalibrate => ControllerView {
            seek_pending: true,
            seek_is_recalibrate: v.command == Command::Recalibrate,
            seek_drive: spec_drive_from(us),
            seek_target: if v.command == Command::Recalibrate { 0 } else { v.buffer[2] },
            seek_cycles: 1000,
            ..v
        },
        Command::SenseIntStatus => {
            let sd = spec_drive_index(v.seek_drive);
            let st0: u8 = if v.interrupt {
                (0x20 + sd + if v.seek_is_recalibrate && !v.drive_at_track0[sd as int] {
                    0x10int
                } else {
                    0
                }) as u8
            } else {
                0x80
            };
            spec_start_result(ControllerView { interrupt: false, st0, ..v })
        },
        Command::SenseDriveStatus => spec_start_result(v),
        Command::ReadID => {
            let track = v.pcn[d];
            if not_ready(v, d) {
                spec_start_result(with_status(v, 0x08 | us, 0, 0))
            } else if !track_formatted(v, d, track) {
                spec_start_result(with_status(v, us, 0x01, 0))
            } else {
                spec_start_result(with_status(v, us, 0, 0))
            }
        },
        Command::ReadData | Command::ReadDeletedData | Command::ReadTrack | Command::ScanEqual
        | Command::ScanLowOrEqual | Command::ScanHighOrEqual => spec_exec_read(v),
        Command::Invalid => spec_start_result(ControllerView { st0: 0x80, ..v }),
        Command::WriteData | Command::WriteDeletedData => spec_exec_write(v),
        Command::FormatTrack => {
            if not_ready(v, d) {
                spec_start_result(with_status(v, 0x08 | us, 0, 0))
            } else {
                ControllerView {
                    format_sectors_remaining: v.buffer[3] as u32,
                    format_byte_idx: 0,
                    exec_cycles: 0,
                    ..v
                }
            }
        },
    }
}

/// A read or scan command starts: the drive must be ready and the track
/// formatted; the transfer begins at sector R (the weak-sector counter moves
/// on), or ends at once when sector R is missing.
pub open spec fn spec_exec_read(v: ControllerView) -> ControllerView {
    let d = cmd_drive(v);
    let us = v.buffer[1] & 0x03;
    if not_ready(v, d) {
        spec_start_result(with_status(v, 0x08 | us, 0, 0))
    } else if !track_formatted(v, d, v.buffer[2]) {
        spec_start_result(with_status(v, us, 0x01, 0))
    } else {
        let w = ControllerView {
            exec_sector: v.buffer[4],
            exec_sector_index: 0,
            exec_remaining: cmd_sector_size(v) as u32,
            exec_cycles: 0,
            weak_counter: if v.weak_counter == 0xFFFF_FFFF { 0 } else { (v.weak_counter + 1) as u32 },
            ..v
        };
        if cmd_sector(w, w.exec_sector) is None {
            spec_start_result(with_status(w, us, 0x04, 0))
        } else {
            w
        }
    }
}

/// A write command starts: the drive must be ready, the disk writable and
/// the track formatted; the transfer begins at sector R, or ends at once
/// when sector R is missing.
pub open spec fn spec_exec_write(v: ControllerView) -> ControllerView {
    let d = cmd_drive(v);
    let us = v.buffer[1] & 0x03;
    if not_ready(v, d) {
        spec_start_result(with_status(v, 0x08 | us, 0, 0))
    } else if v.drive_write_protected[d] {
        spec_start_result(with_status(v, us, 0x02, 0))
    } else if !track_formatted(v, d, v.buffer[2]) {
        spec_start_result(with_status(v, us, 0x01, 0))
    } else {
        let w = ControllerView {
            exec_sector: v.buffer[4],
            exec_sector_index: 0,
            exec_remaining: cmd_sector_size(v) as u32,
            exec_cycles: 0,
            ..v
        };
        if cmd_sector(w, w.exec_sector) is None {
            spec_start_result(with_status(w, us, 0x04, 0))
        } else {
            w
        }
    }
}

/// `start_execution` returns: the sector size of a transfer that reaches
/// its execution phase fits the 32-bit byte counter.
pub open spec fn start_execution_ok(v0: ControllerView) -> bool {
    let v = ControllerView { phase: Phase::Execution, ..v0 };
    let d = cmd_drive(v);
    match v.command {
        Command::ReadData | Command::ReadDeletedData | Command::ReadTrack | Command::ScanEqual
        | Command::ScanLowOrEqual | Command::ScanHighOrEqual => !not_ready(v, d)
            && track_formatted(v, d, v.buffer[2]) ==> v.buffer[5] <= 24,
        Command::WriteData | Command::WriteDeletedData => !not_ready(v, d)
            && !v.drive_write_protected[d] && track_formatted(v, d, v.buffer[2]) ==> v.buffer[5]
            <= 24,
        _ => true,
    }
}

/// The state after the seek timer runs for `cycles`.
pub open spec fn spec_tick_seek(v: ControllerView, cycles: u64) -> ControllerView {
    if v.seek_pending {
        if v.seek_cycles > cycles {
            ControllerView { seek_cycles: (v.seek_cycles - cycles) as u64, ..v }
        } else {
            ControllerView {
                seek_pending: false,
                pcn: v.pcn.update(spec_drive_index(v.seek_drive) as int, v.seek_target),
                interrupt: true,
                phase: Phase::Command,
                buffer_idx: 0,
                ..v
            }
        }
    } else {
        v
    }
}

/// The state after `cycles` of the 4 MHz clock: a pending seek counts down
/// and completes (updating the cylinder and raising the interrupt); a busy
/// command without a disk ends abnormally; a transfer the CPU has not
/// serviced for 104 cycles ends with an overrun (on the uPD765A a missed
/// last byte is not flagged as overrun).
pub open spec fn spec_tick(v0: ControllerView, cycles: u64) -> ControllerView {
    spec_tick_exec(spec_tick_seek(v0, cycles), cycles)
}

/// The execution-phase part of a clock step.
pub open spec fn spec_tick_exec(a: ControllerView, cycles: u64) -> ControllerView {
    let us = a.buffer[1] & 0x03;
    if a.phase == Phase::Execution {
        if spec_is_fdc_busy(a.command) && a.disks[cmd_drive(a)] is None {
            spec_start_result(with_status(a, us | 0x40, 0, 0))
        } else if a.exec_remaining > 0 {
            let ec = a.exec_cycles + cycles;
            let b = ControllerView { exec_cycles: ec as u64, ..a };
            if ec >= 104 {
                let set_or = a.exec_remaining != 1 || a.variant == Variant::Upd765B;
                spec_start_result(
                    with_status(
                        b,
                        us | 0x40,
                        if set_or { 0x90 } else { 0x80 },
                        if a.command == Command::ReadDeletedData { 0x40 } else { 0 },
                    ),
                )
            } else {
                b
            }
        } else {
            a
        }
    } else {
        a
    }
}

/// `tick` returns: the cycle counter does not overflow and a timed-out
/// transfer is one that has a result phase.
pub open spec fn tick_ok(v0: ControllerView, cycles: u64) -> bool {
    let a = spec_tick_seek(v0, cycles);
    a.phase == Phase::Execution && !(spec_is_fdc_busy(a.command) && a.disks[cmd_drive(a)] is None)
        && a.exec_remaining > 0 ==> {
        &&& a.exec_cycles + cycles <= u64::MAX
        &&& a.exec_cycles + cycles >= 104 ==> has_result_phase(a.command)
    }
}

/// The MSR byte.
pub open spec fn spec_msr(v: ControllerView) -> u8 {
    let exec = v.phase == Phase::Execution;
    let b1 = v.buffer[1];
    let busy_on = |d: u8|
        exec && (v.command == Command::Seek || v.command == Command::Recalibrate) && b1 & 0x03
            == d;
    (0x80 + (if v.phase == Phase::Result || (exec && spec_is_executing_read(v.command)) {
        0x40int
    } else {
        0
    }) + (if exec { 0x20int } else { 0 }) + (if exec && spec_is_fdc_busy(v.command) {
        0x10int
    } else {
        0
    }) + (if busy_on(3) { 0x08int } else { 0 }) + (if busy_on(2) { 0x04int } else { 0 }) + (
    if busy_on(1) {
        0x02int
    } else {
        0
    }) + (if busy_on(0) { 0x01int } else { 0 })) as u8
}

/// The byte offset into the stored data of the sector being read: a weak
/// sector stores several copies, and successive reads cycle through them.
pub open spec fn read_offset(v: ControllerView, sector: Seq<u8>) -> int {
    let size = cmd_sector_size(v);
    if sector.len() > size {
        let w: int = if v.weak_counter == 0 { 0xFFFF_FFFF } else { v.weak_counter - 1 };
        (w % (sector.len() as int / size)) * size
    } else {
        0
    }
}

/// The transfer ends abnormally with the given status.
pub open spec fn end_transfer(v: ControllerView, st1: u8, st2: u8) -> ControllerView {
    spec_start_result(with_status(v, (v.buffer[1] & 0x03) | 0x40, st1, st2))
}

/// A read of the data register: returns the byte and the new state.
/// In the result phase it pops a result byte; while a read executes it
/// delivers the next sector byte, moving on to the next sector (or ending
/// the command past EOT or at a missing sector).
pub open spec fn spec_read_data(v: ControllerView) -> (u8, ControllerView) {
    if v.phase == Phase::Result {
        let value = v.buffer[v.buffer_idx as int];
        let i = v.buffer_idx + 1;
        if i == 9 {
            (value, ControllerView { buffer_idx: 0, phase: Phase::Command, ..v })
        } else {
            (value, ControllerView { buffer_idx: i as u8, ..v })
        }
    } else if v.phase == Phase::Execution && spec_is_executing_read(v.command) {
        let size = cmd_sector_size(v);
        let sector = cmd_sector(v, v.exec_sector)->Some_0;
        let byte = sector[read_offset(v, sector) + v.exec_sector_index];
        let idx = v.exec_sector_index + 1;
        let rem: u32 = if v.exec_remaining > 0 { (v.exec_remaining - 1) as u32 } else { 0 };
        let w = ControllerView { exec_sector_index: idx as u32, exec_cycles: 0, exec_remaining: rem, ..v };
        if idx == size {
            let sec = (v.exec_sector + 1) as u8;
            let w2 = ControllerView { exec_sector_index: 0, exec_sector: sec, ..w };
            let st2: u8 = if v.command == Command::ReadDeletedData { 0x40 } else { 0 };
            if sec > v.buffer[6] || cmd_sector(w2, sec) is None {
                (byte, end_transfer(w2, 0x80, st2))
            } else {
                (byte, ControllerView { exec_remaining: size as u32, ..w2 })
            }
        } else {
            (byte, w)
        }
    } else {
        (0, v)
    }
}

/// `read_data_register` returns: while a read executes, the disk and the
/// sector being read are there, the byte lies inside the stored data, and
/// the sector number does not wrap.
pub open spec fn read_ok(v: ControllerView) -> bool {
    v.phase == Phase::Execution && spec_is_executing_read(v.command) ==> {
        &&& v.disks[cmd_drive(v)] is Some
        &&& cmd_sector(v, v.exec_sector) is Some
        &&& read_offset(v, cmd_sector(v, v.exec_sector)->Some_0) + v.exec_sector_index < cmd_sector(
            v,
            v.exec_sector,
        )->Some_0.len()
        &&& v.exec_sector_index + 1 == cmd_sector_size(v) ==> v.exec_sector < 255
    }
}

/// A CPU write to a transfer in execution (write or scan): counts the byte
/// and moves on to the next sector, or ends the command past EOT or at a
/// missing sector.
pub open spec fn spec_write_transfer(v: ControllerView, st1: u8, st2: u8) -> ControllerView {
    let size = cmd_sector_size(v);
    let idx = v.exec_sector_index + 1;
    let rem: u32 = if v.exec_remaining > 0 { (v.exec_remaining - 1) as u32 } else { 0 };
    let w = ControllerView { exec_sector_index: idx as u32, exec_remaining: rem, ..v };
    if idx == size {
        let sec = (v.exec_sector + 1) as u8;
        let w2 = ControllerView { exec_sector_index: 0, exec_sector: sec, ..w };
        if sec > v.buffer[6] || cmd_sector(w2, sec) is None {
            end_transfer(w2, st1, st2)
        } else {
            ControllerView { exec_remaining: size as u32, ..w2 }
        }
    } else {
        w
    }
}

/// A write of the data register. In the command phase it collects a
/// command byte (the first one selects the command and clears the buffer)
/// and starts the command once all bytes are in; during execution it feeds
/// the transfer or the format; in the result phase it is ignored.
pub open spec fn spec_write_data(v: ControllerView, value: u8) -> ControllerView {
    if v.phase == Phase::Execution {
        let v1 = ControllerView { exec_cycles: 0, ..v };
        match v.command {
            Command::WriteData | Command::WriteDeletedData => spec_write_transfer(v1, 0x80, 0),
            Command::FormatTrack => {
                let fi = v.format_byte_idx + 1;
                if fi == 4 {
                    let rem = v.format_sectors_remaining - 1;
                    let w = ControllerView {
                        format_byte_idx: 0,
                        format_sectors_remaining: rem as u32,
                        ..v1
                    };
                    if rem == 0 {
                        spec_start_result(with_status(w, v.buffer[1] & 0x03, 0, 0))
                    } else {
                        w
                    }
                } else {
                    ControllerView { format_byte_idx: fi as u8, ..v1 }
                }
            },
            Command::ScanEqual | Command::ScanLowOrEqual | Command::ScanHighOrEqual =>
                spec_write_transfer(v1, 0, 0x04),
            _ => v1,
        }
    } else if v.phase != Phase::Command {
        v
    } else {
        let first = v.buffer_idx == 0;
        let command = if first { spec_parse_opcode(value) } else { v.command };
        let buffer = if first { seq![0u8, 0, 0, 0, 0, 0, 0, 0, 0] } else { v.buffer };
        let idx = v.buffer_idx + 1;
        let w = ControllerView {
            command,
            buffer: buffer.update(v.buffer_idx as int, value),
            buffer_idx: idx as u8,
            ..v
        };
        if idx == spec_expected_length(command) {
            spec_start_execution(w)
        } else {
            w
        }
    }
}

/// `write_data_register` returns: a transfer does not wrap the sector
/// number and has its disk when it moves to a sector up to EOT; a format
/// has sectors left; a completed command can start.
pub open spec fn write_ok(v: ControllerView, value: u8) -> bool {
    if v.phase == Phase::Execution {
        match v.command {
            Command::WriteData | Command::WriteDeletedData | Command::ScanEqual
            | Command::ScanLowOrEqual | Command::ScanHighOrEqual => v.exec_sector_index + 1
                == cmd_sector_size(v) ==> {
                &&& v.exec_sector < 255
                &&& v.exec_sector + 1 <= v.buffer[6] ==> v.disks[cmd_drive(v)] is Some
            },
            Command::FormatTrack => v.format_byte_idx + 1 == 4 ==> v.format_sectors_remaining > 0,
            _ => true,
        }
    } else if v.phase != Phase::Command {
        true
    } else {
        let first = v.buffer_idx == 0;
        let command = if first { spec_parse_opcode(value) } else { v.command };
        let buffer = if first { seq![0u8, 0, 0, 0, 0, 0, 0, 0, 0] } else { v.buffer };
        let idx = v.buffer_idx + 1;
        let w = ControllerView {
            command,
            buffer: buffer.update(v.buffer_idx as int, value),
            buffer_idx: idx as u8,
            ..v
        };
        idx == spec_expected_length(command) ==> start_execution_ok(w)
    }
}


/// The byte size of a sector with size code `n` (at most 24), as a 32-bit count.
pub fn sector_size_u32(n: u8) -> (r: u32)
    requires
        n <= 24,
    ensures
        r == pow2((n + 7) as nat),
        r >= 128,
{
    proof {
        lemma2_to64();
        if n < 24 {
            lemma_pow2_strictly_increases((n + 7) as nat, 31);
        }
        if n > 0 {
            lemma_pow2_strictly_increases(7, (n + 7) as nat);
        }
        vstd::bits::lemma_u32_shl_is_mul(1u32, (n + 7) as u32);
    }
    1u32 << (n + 7) as u32
}

/// The drive-select bits (0-1) of a command byte.
pub fn drive_bits(b: u8) -> (r: u8)
    ensures
        r == b & 0x03,
        r < 4,
{
    assert(b & 0x03 < 4) by (bit_vector);
    b & 0b11
}

/// The head-select bit (2) of a command byte.
pub fn side_bit(b: u8) -> (r: u8)
    ensures
        r == (b >> 2u8) & 0x01,
        r < 2,
{
    assert((b >> 2u8) & 0x01 < 2) by (bit_vector);
    (b >> 2u8) & 0b1
}

impl Controller {
    /// The controller state is well formed.
    pub open spec fn wf(&self) -> bool {
        view_wf(self@)
    }

    /// The power-on state: command phase with an empty buffer, motor off, no
    /// disks, drives not ready, all heads on cylinder 0, nothing pending and
    /// every counter and status byte zero.
    pub open spec fn is_reset(&self, variant: Variant) -> bool {
        &&& self.variant == variant
        &&& self.phase == Phase::Command
        &&& !self.motor_state
        &&& forall|i: int| 0 <= i < 4 ==> #[trigger] self.disks@[i] is None
        &&& forall|i: int| 0 <= i < 4 ==> !#[trigger] self.drive_ready@[i]
        &&& forall|i: int| 0 <= i < 4 ==> !#[trigger] self.drive_at_track0@[i]
        &&& forall|i: int| 0 <= i < 4 ==> !#[trigger] self.drive_write_protected@[i]
        &&& forall|i: int| 0 <= i < 4 ==> !#[trigger] self.drive_two_sided@[i]
        &&& forall|i: int| 0 <= i < 4 ==> #[trigger] self.pcn@[i] == 0
        &&& forall|i: int| 0 <= i < 9 ==> #[trigger] self.buffer@[i] == 0
        &&& self.command == Command::ReadData
        &&& self.buffer_idx == 0
        &&& self.st0 == 0 && self.st1 == 0 && self.st2 == 0 && self.st3 == 0
        &&& !self.interrupt
        &&& !self.seek_pending
        &&& self.seek_drive == Drive::Drive0
        &&& self.seek_target == 0
        &&& self.seek_cycles == 0
        &&& !self.seek_is_recalibrate
        &&& self.exec_remaining == 0
        &&& self.exec_sector == 0
        &&& self.exec_sector_index == 0
        &&& self.exec_write_remaining == 0
        &&& !self.expecting_deleted
        &&& self.format_sectors_remaining == 0
        &&& self.exec_cycles == 0
        &&& self.format_byte_idx == 0
        &&& self.weak_counter == 0
    }

    pub fn new_with_variant(variant: Variant) -> (c: Self)
        ensures
            c.wf(),
            c.is_reset(variant),
    {
        let c = Self {
            variant,
            phase: Phase::Command,
            motor_state: false,
            disks: [None, None, None, None],
            drive_ready: [false; 4],
            drive_at_track0: [false; 4],
            drive_write_protected: [false; 4],
            drive_two_sided: [false; 4],
            command: Command::ReadData,
            buffer: [0; 9],
            buffer_idx: 0,
            st0: 0,
            st1: 0,
            st2: 0,
            st3: 0,
            pcn: [0; 4],
            interrupt: false,
            seek_pending: false,
            seek_drive: Drive::Drive0,
            seek_target: 0,
            seek_cycles: 0,
            exec_remaining: 0,
            exec_sector: 0,
            exec_sector_index: 0,
            exec_write_remaining: 0,
            expecting_deleted: false,
            format_sectors_remaining: 0,
            exec_cycles: 0,
            format_byte_idx: 0,
            weak_counter: 0,
            seek_is_recalibrate: false,
        };
        proof {
            assert(c@.disks.len() == 4);
        }
        c
    }

    /// Runs the controller for `cycles` clock cycles.
    pub fn tick(&mut self, cycles: u64)
        requires
            old(self).wf(),
            tick_ok(old(self)@, cycles),
        ensures
            final(self).wf(),
            final(self)@ == spec_tick(old(self)@, cycles),
    {
        self.tick_seek(cycles);
        self.tick_execution(cycles);
    }

    fn tick_seek(&mut self, cycles: u64)
        requires
            old(self).wf(),
        ensures
            final(self).wf(),
            final(self)@ == spec_tick_seek(old(self)@, cycles),
    {
        if self.seek_pending {
            if self.seek_cycles > cycles {
                self.seek_cycles -= cycles;
            } else {
                self.seek_pending = false;
                let sd = self.seek_drive.index();
                self.pcn[sd] = self.seek_target;
                self.interrupt = true;
                self.phase = Phase::Command;
                self.buffer_idx = 0;
                proof {
                    assert(self@.pcn =~= old(self)@.pcn.update(sd as int, old(self).seek_target));
                }
            }
        }
    }

    #[verifier::spinoff_prover]
    fn tick_execution(&mut self, cycles: u64)
        requires
            old(self).wf(),
            old(self)@.phase == Phase::Execution && !(spec_is_fdc_busy(old(self)@.command)
                && old(self)@.disks[cmd_drive(old(self)@)] is None) && old(self)@.exec_remaining > 0
                ==> {
                &&& old(self)@.exec_cycles + cycles <= u64::MAX
                &&& old(self)@.exec_cycles + cycles >= 104 ==> has_result_phase(old(self)@.command)
            },
        ensures
            final(self).wf(),
            final(self)@ == spec_tick_exec(old(self)@, cycles),
    {
        if self.phase == Phase::Execution {
            let us = drive_bits(self.buffer[1]);
            let drive_idx = us as usize;
            if self.command.is_fdc_busy() && self.disks[drive_idx].is_none() {
                self.st0 = us | ST0_IC_AT;
                self.st1 = 0;
                self.st2 = 0;
                self.start_result_phase();
            } else if self.exec_remaining > 0 {
                self.exec_cycles += cycles;
                if self.exec_cycles >= 104 {
                    let is_last_byte = self.exec_remaining == 1;
                    let set_or = !is_last_byte || self.variant == Variant::Upd765B;
                    self.st0 = us | ST0_IC_AT;
                    self.st1 = if set_or { ST1_EN + ST1_OR } else { ST1_EN };
                    self.st2 = if self.command == Command::ReadDeletedData { ST2_CM } else { 0 };
                    self.start_result_phase();
                }
            }
        }
    }

    /// The main status register: RQM always; DIO in the result phase and
    /// during reads; EXM in execution; CB while a busy command executes;
    /// DnB while drive n seeks.
    pub fn read_main_status_register(&self) -> (r: u8)
        requires
            self.wf(),
        ensures
            r == spec_msr(self@),
    {
        let exec = self.phase == Phase::Execution;
        let b1 = self.buffer[1];
        let dio: u8 = if self.phase == Phase::Result || (exec && self.command.is_executing_read()) {
            MSR_DIO
        } else {
            0
        };
        let exm: u8 = if exec { MSR_EXM } else { 0 };
        let cb: u8 = if exec && self.command.is_fdc_busy() { MSR_CB } else { 0 };
        let d3: u8 = if exec && self.command.is_drive_busy(Drive::Drive3, b1) { MSR_D3B } else { 0 };
        let d2: u8 = if exec && self.command.is_drive_busy(Drive::Drive2, b1) { MSR_D2B } else { 0 };
        let d1: u8 = if exec && self.command.is_drive_busy(Drive::Drive1, b1) { MSR_D1B } else { 0 };
        let d0: u8 = if exec && self.command.is_drive_busy(Drive::Drive0, b1) { MSR_D0B } else { 0 };
        MSR_RQM + dio + exm + cb + d3 + d2 + d1 + d0
    }

    /// Reads the data register (port &FB7F).
    pub fn read_data_register(&mut self) -> (r: u8)
        requires
            old(self).wf(),
            read_ok(old(self)@),
        ensures
            final(self).wf(),
            (r, final(self)@) == spec_read_data(old(self)@),
    {
        if self.phase == Phase::Result {
            let value = self.buffer[self.buffer_idx as usize];
            self.buffer_idx += 1;
            if self.buffer_idx as usize == self.buffer.len() {
                self.buffer_idx = 0;
                self.phase = Phase::Command;
            }
            return value;
        }
        if self.phase == Phase::Execution && self.command.is_executing_read() {
            let us = drive_bits(self.buffer[1]);
            let drive_idx = us as usize;
            let track = self.buffer[2];
            let side = side_bit(self.buffer[1]);
            let sector_size = sector_size_u32(self.buffer[5]) as usize;
            let eot = self.buffer[6];
            let byte;
            let next_present;
            match &self.disks[drive_idx] {
                Some(disk) => {
                    let sector = match disk.sector_data_by_id(track, side, self.exec_sector) {
                        Some(s) => s,
                        None => {
                            assert(false);
                            return 0;
                        },
                    };
                    let data_offset = if sector.len() > sector_size {
                        let copies = sector.len() / sector_size;
                        assert(copies >= 1) by (nonlinear_arith)
                            requires
                                copies == (sector@.len() as int) / (sector_size as int),
                                sector@.len() > sector_size,
                                sector_size > 0,
                        ;
                        (self.weak_counter.wrapping_sub(1) as usize % copies) * sector_size
                    } else {
                        0
                    };
                    assert(data_offset == read_offset(self@, sector@));
                    byte = sector[data_offset + self.exec_sector_index as usize];
                    next_present = if self.exec_sector < 255 {
                        disk.sector_data_by_id(track, side, self.exec_sector + 1).is_some()
                    } else {
                        false
                    };
                },
                None => {
                    assert(false);
                    return 0;
                },
            }
            self.exec_sector_index += 1;
            self.exec_cycles = 0;
            self.exec_remaining = self.exec_remaining.saturating_sub(1);
            if self.exec_sector_index as usize == sector_size {
                self.exec_sector_index = 0;
                self.exec_sector += 1;
                if self.exec_sector > eot || !next_present {
                    self.st0 = us | ST0_IC_AT;
                    self.st1 = ST1_EN;
                    self.st2 = if self.command == Command::ReadDeletedData { ST2_CM } else { 0 };
                    self.start_result_phase();
                    return byte;
                }
                self.exec_remaining = sector_size as u32;
            }
            return byte;
        }
        0
    }
}


impl Controller {
    /// Writes the data register (port &FB7F).
    pub fn write_data_register(&mut self, value: u8)
        requires
            old(self).wf(),
            write_ok(old(self)@, value),
        ensures
            final(self).wf(),
            final(self)@ == spec_write_data(old(self)@, value),
    {
        if self.phase == Phase::Execution {
            self.write_execution();
        } else if self.phase == Phase::Command {
            self.write_command(value);
        }
    }

    /// A byte written during execution.
    #[verifier::spinoff_prover]
    fn write_execution(&mut self)
        requires
            old(self).wf(),
            old(self).phase == Phase::Execution,
            write_ok(old(self)@, 0),
        ensures
            final(self).wf(),
            final(self)@ == spec_write_data(old(self)@, 0),
    {
        self.exec_cycles = 0;
        match self.command {
            Command::WriteData | Command::WriteDeletedData => {
                self.write_transfer_byte(ST1_EN, 0);
            },
            Command::FormatTrack => {
                self.format_byte_idx += 1;
                if self.format_byte_idx == 4 {
                    self.format_byte_idx = 0;
                    self.format_sectors_remaining -= 1;
                    if self.format_sectors_remaining == 0 {
                        self.st0 = drive_bits(self.buffer[1]);
                        self.st1 = 0;
                        self.st2 = 0;
                        self.start_result_phase();
                    }
                }
            },
            Command::ScanEqual | Command::ScanLowOrEqual | Command::ScanHighOrEqual => {
                self.write_transfer_byte(0, ST2_SN);
            },
            _ => {},
        }
    }

    /// A command byte.
    #[verifier::spinoff_prover]
    fn write_command(&mut self, value: u8)
        requires
            old(self).wf(),
            old(self).phase == Phase::Command,
            write_ok(old(self)@, value),
        ensures
            final(self).wf(),
            final(self)@ == spec_write_data(old(self)@, value),
    {
        if self.buffer_idx == 0 {
            self.command = Command::parse_opcode(value);
            self.buffer = [0; 9];
            proof {
                assert(self.buffer@ =~= seq![0u8, 0, 0, 0, 0, 0, 0, 0, 0]);
            }
        }
        let i = self.buffer_idx as usize;
        self.buffer[i] = value;
        self.buffer_idx += 1;
        if self.buffer_idx == self.command.expected_length() {
            self.start_execution();
        }
    }

    /// One CPU byte of a write or scan in execution.
    fn write_transfer_byte(&mut self, st1: u8, st2: u8)
        requires
            old(self).wf(),
            old(self).phase == Phase::Execution,
            is_transfer(old(self).command),
            !spec_is_executing_read(old(self).command),
            write_ok(old(self)@, 0),
        ensures
            final(self).wf(),
            final(self)@ == spec_write_transfer(old(self)@, st1, st2),
    {
        let us = drive_bits(self.buffer[1]);
        let drive_idx = us as usize;
        let track = self.buffer[2];
        let side = side_bit(self.buffer[1]);
        let eot = self.buffer[6];
        let sector_size = sector_size_u32(self.buffer[5]) as usize;
        self.exec_sector_index += 1;
        self.exec_remaining = self.exec_remaining.saturating_sub(1);
        if self.exec_sector_index as usize == sector_size {
            self.exec_sector_index = 0;
            self.exec_sector += 1;
            let missing = if self.exec_sector > eot {
                true
            } else {
                match &self.disks[drive_idx] {
                    Some(disk) => disk.sector_data_by_id(track, side, self.exec_sector).is_none(),
                    None => {
                        assert(false);
                        true
                    },
                }
            };
            if missing {
                self.st0 = us | ST0_IC_AT;
                self.st1 = st1;
                self.st2 = st2;
                self.start_result_phase();
            } else {
                self.exec_remaining = sector_size as u32;
            }
        }
    }

    /// Whether `tick(cycles)` may run now (see `tick_ok`).
    pub fn check_tick(&self, cycles: u64) -> (r: bool)
        requires
            self.wf(),
        ensures
            r == tick_ok(self@, cycles),
    {
        let seek_done = self.seek_pending && self.seek_cycles <= cycles;
        let executing = self.phase == Phase::Execution && !seek_done;
        let drive_idx = drive_bits(self.buffer[1]) as usize;
        if executing && !(self.command.is_fdc_busy() && self.disks[drive_idx].is_none())
            && self.exec_remaining > 0 {
            match self.exec_cycles.checked_add(cycles) {
                Some(total) => total < 104 || self.command.leads_to_result(),
                None => false,
            }
        } else {
            true
        }
    }

    /// Whether `read_data_register` may run now (see `read_ok`).
    pub fn check_read_data(&self) -> (r: bool)
        requires
            self.wf(),
        ensures
            r == read_ok(self@),
    {
        if !(self.phase == Phase::Execution && self.command.is_executing_read()) {
            return true;
        }
        let drive_idx = drive_bits(self.buffer[1]) as usize;
        let track = self.buffer[2];
        let side = side_bit(self.buffer[1]);
        let sector_size = sector_size_u32(self.buffer[5]) as usize;
        match &self.disks[drive_idx] {
            None => false,
            Some(disk) => match disk.sector_data_by_id(track, side, self.exec_sector) {
                None => false,
                Some(sector) => {
                    let len = sector.len();
                    let data_offset = if len > sector_size {
                        let copies = len / sector_size;
                        assert(copies >= 1) by (nonlinear_arith)
                            requires
                                copies == (len as int) / (sector_size as int),
                                len > sector_size,
                                sector_size > 0,
                        ;
                        let k = self.weak_counter.wrapping_sub(1) as usize % copies;
                        assert(k * sector_size + sector_size <= len) by (nonlinear_arith)
                            requires
                                copies == (len as int) / (sector_size as int),
                                k < copies,
                                sector_size > 0,
                        ;
                        k * sector_size
                    } else {
                        0
                    };
                    assert(data_offset == read_offset(self@, sector@));
                    let idx = self.exec_sector_index as usize;
                    let inside = data_offset < len && idx < len - data_offset;
                    let wraps = idx + 1 == sector_size && self.exec_sector == 255;
                    inside && !wraps
                },
            },
        }
    }

    /// Whether `write_data_register(value)` may run now (see `write_ok`).
    pub fn check_write_data(&self, value: u8) -> (r: bool)
        requires
            self.wf(),
        ensures
            r == write_ok(self@, value),
    {
        if self.phase == Phase::Execution {
            match self.command {
                Command::WriteData | Command::WriteDeletedData | Command::ScanEqual
                | Command::ScanLowOrEqual | Command::ScanHighOrEqual => {
                    let sector_size = sector_size_u32(self.buffer[5]) as usize;
                    if self.exec_sector_index as usize + 1 == sector_size {
                        let drive_idx = drive_bits(self.buffer[1]) as usize;
                        self.exec_sector < 255 && (self.exec_sector >= self.buffer[6]
                            || self.disks[drive_idx].is_some())
                    } else {
                        true
                    }
                },
                Command::FormatTrack => self.format_byte_idx != 3
                    || self.format_sectors_remaining > 0,
                _ => true,
            }
        } else if self.phase != Phase::Command {
            true
        } else {
            let first = self.buffer_idx == 0;
            let command = if first { Command::parse_opcode(value) } else { self.command };
            let mut buffer = if first { [0u8; 9] } else { self.buffer };
            let i = self.buffer_idx as usize;
            buffer[i] = value;
            proof {
                let base = if first { seq![0u8, 0, 0, 0, 0, 0, 0, 0, 0] } else { self.buffer@ };
                assert(buffer@ =~= base.update(i as int, value));
            }
            if self.buffer_idx + 1 == command.expected_length() {
                self.check_start(command, &buffer, self.buffer_idx + 1)
            } else {
                true
            }
        }
    }

    /// Whether a command with these bytes may start (see
    /// `start_execution_ok`).
    fn check_start(&self, command: Command, buffer: &[u8; 9], idx: u8) -> (r: bool)
        requires
            self.wf(),
        ensures
            r == start_execution_ok(
                ControllerView { command, buffer: buffer@, buffer_idx: idx, ..self@ },
            ),
    {
        let drive_idx = drive_bits(buffer[1]) as usize;
        let side = side_bit(buffer[1]);
        let track = buffer[2];
        let not_ready = !self.motor_state || !self.drive_ready[drive_idx]
            || self.disks[drive_idx].is_none();
        match command {
            Command::ReadData | Command::ReadDeletedData | Command::ReadTrack | Command::ScanEqual
            | Command::ScanLowOrEqual | Command::ScanHighOrEqual => not_ready
                || !self.disk_track_formatted(drive_idx, track, side) || buffer[5] <= 24,
            Command::WriteData | Command::WriteDeletedData => not_ready
                || self.drive_write_protected[drive_idx] || !self.disk_track_formatted(
                drive_idx,
                track,
                side,
            ) || buffer[5] <= 24,
            _ => true,
        }
    }

    pub fn insert_disk(&mut self, drive: Drive, disk: Disk)
        requires
            old(self).wf(),
            disk.wf(),
        ensures
            final(self).wf(),
            final(self)@ == (ControllerView {
                disks: old(self)@.disks.update(spec_drive_index(drive) as int, Some(disk@)),
                ..old(self)@
            }),
    {
        let i = drive.index();
        self.disks[i] = Some(disk);
        proof {
            assert(self@.disks =~= old(self)@.disks.update(i as int, Some(disk@)));
        }
    }

    /// Puts `disk` in `drive` as a freshly loaded disk: the drive is ready,
    /// its head signals track 0, it is writable, and it is two-sided exactly
    /// when the image has two sides.
    pub fn mount_disk(&mut self, drive: Drive, disk: Disk)
        requires
            old(self).wf(),
            disk.wf(),
        ensures
            final(self).wf(),
            final(self)@ == (ControllerView {
                disks: old(self)@.disks.update(spec_drive_index(drive) as int, Some(disk@)),
                drive_ready: old(self)@.drive_ready.update(spec_drive_index(drive) as int, true),
                drive_at_track0: old(self)@.drive_at_track0.update(
                    spec_drive_index(drive) as int,
                    true,
                ),
                drive_two_sided: old(self)@.drive_two_sided.update(
                    spec_drive_index(drive) as int,
                    disk@.side_count == 2,
                ),
                drive_write_protected: old(self)@.drive_write_protected.update(
                    spec_drive_index(drive) as int,
                    false,
                ),
                ..old(self)@
            }),
    {
        let two_sided = disk.side_count() == 2;
        self.insert_disk(drive, disk);
        self.set_drive_ready(drive, true);
        self.set_drive_at_track0(drive, true);
        self.set_drive_two_sided(drive, two_sided);
        self.set_drive_write_protected(drive, false);
    }

    pub fn eject_disk(&mut self, drive: Drive)
        requires
            old(self).wf(),
        ensures
            final(self).wf(),
            final(self)@ == (ControllerView {
                disks: old(self)@.disks.update(spec_drive_index(drive) as int, None),
                ..old(self)@
            }),
    {
        let i = drive.index();
        self.disks[i] = None;
        proof {
            assert(self@.disks =~= old(self)@.disks.update(i as int, None));
        }
    }

    pub fn set_motor(&mut self, state: bool)
        requires
            old(self).wf(),
        ensures
            final(self).wf(),
            final(self)@ == (ControllerView { motor_state: state, ..old(self)@ }),
    {
        self.motor_state = state;
    }

    pub fn motor_state(&self) -> (r: bool)
        ensures
            r == self.motor_state,
    {
        self.motor_state
    }

    /// Back to the command phase, forgetting any seek and interrupt; every
    /// drive's present cylinder reads 0 again.
    pub fn reset(&mut self)
        requires
            old(self).wf(),
        ensures
            final(self).wf(),
            final(self)@ == (ControllerView {
                phase: Phase::Command,
                buffer_idx: 0,
                interrupt: false,
                seek_pending: false,
                seek_cycles: 0,
                pcn: seq![0u8, 0, 0, 0],
                ..old(self)@
            }),
    {
        self.phase = Phase::Command;
        self.buffer_idx = 0;
        self.interrupt = false;
        self.seek_pending = false;
        self.seek_cycles = 0;
        self.pcn = [0; 4];
        assert(self.pcn@ =~= seq![0u8, 0, 0, 0]);
    }

    pub fn variant(&self) -> (r: Variant)
        ensures
            r == self.variant,
    {
        self.variant
    }

    pub fn phase(&self) -> (r: Phase)
        ensures
            r == self.phase,
    {
        self.phase
    }

    pub fn interrupt_pending(&self) -> (r: bool)
        ensures
            r == self.interrupt,
    {
        self.interrupt
    }

    pub fn is_disk_inserted(&self, drive: Drive) -> (r: bool)
        ensures
            r == self.disks@[spec_drive_index(drive) as int] is Some,
    {
        self.disks[drive.index()].is_some()
    }

    pub fn pcn(&self, drive: Drive) -> (r: u8)
        ensures
            r == self.pcn@[spec_drive_index(drive) as int],
    {
        self.pcn[drive.index()]
    }

    pub fn set_drive_ready(&mut self, drive: Drive, ready: bool)
        requires
            old(self).wf(),
        ensures
            final(self).wf(),
            final(self)@ == (ControllerView {
                drive_ready: old(self)@.drive_ready.update(spec_drive_index(drive) as int, ready),
                ..old(self)@
            }),
    {
        self.drive_ready[drive.index()] = ready;
    }

    pub fn set_drive_at_track0(&mut self, drive: Drive, state: bool)
        requires
            old(self).wf(),
        ensures
            final(self).wf(),
            final(self)@ == (ControllerView {
                drive_at_track0: old(self)@.drive_at_track0.update(spec_drive_index(drive) as int, state),
                ..old(self)@
            }),
    {
        self.drive_at_track0[drive.index()] = state;
    }

    pub fn set_drive_write_protected(&mut self, drive: Drive, state: bool)
        requires
            old(self).wf(),
        ensures
            final(self).wf(),
            final(self)@ == (ControllerView {
                drive_write_protected: old(self)@.drive_write_protected.update(
                    spec_drive_index(drive) as int,
                    state,
                ),
                ..old(self)@
            }),
    {
        self.drive_write_protected[drive.index()] = state;
    }

    pub fn set_drive_two_sided(&mut self, drive: Drive, state: bool)
        requires
            old(self).wf(),
        ensures
            final(self).wf(),
            final(self)@ == (ControllerView {
                drive_two_sided: old(self)@.drive_two_sided.update(spec_drive_index(drive) as int, state),
                ..old(self)@
            }),
    {
        self.drive_two_sided[drive.index()] = state;
    }

    /// All command bytes are in: start the command.
    pub fn start_execution(&mut self)
        requires
            storage_ok(old(self)@),
            start_execution_ok(old(self)@),
        ensures
            final(self).wf(),
            final(self)@ == spec_start_execution(old(self)@),
    {
        self.phase = Phase::Execution;
        match self.command {
            Command::Version | Command::SenseDriveStatus | Command::Invalid => {
                if self.command == Command::Invalid {
                    self.st0 = ST0_IC_IC;
                }
                self.start_result_phase();
            },
            Command::Specify => {
                self.phase = Phase::Command;
                self.buffer_idx = 0;
            },
            Command::Seek | Command::Recalibrate => self.exec_seek(),
            Command::SenseIntStatus => self.exec_sense_int(),
            Command::ReadID => self.exec_read_id(),
            Command::ReadData | Command::ReadDeletedData | Command::ReadTrack | Command::ScanEqual
            | Command::ScanLowOrEqual | Command::ScanHighOrEqual => self.exec_read(),
            Command::WriteData | Command::WriteDeletedData => self.exec_write(),
            Command::FormatTrack => self.exec_format(),
        }
    }

    /// Seek and Recalibrate: the head movement starts; it completes in `tick`.
    fn exec_seek(&mut self)
        requires
            storage_ok(old(self)@),
            old(self).phase == Phase::Execution,
            old(self).command == Command::Seek || old(self).command == Command::Recalibrate,
        ensures
            final(self).wf(),
            final(self)@ == spec_start_execution(old(self)@),
    {
        let us = drive_bits(self.buffer[1]);
        self.seek_pending = true;
        self.seek_is_recalibrate = self.command == Command::Recalibrate;
        self.seek_drive = Drive::from_index(us);
        self.seek_target = if self.command == Command::Recalibrate {
            0
        } else {
            self.buffer[2]
        };
        self.seek_cycles = 1000;
    }

    /// Sense Interrupt Status: reports (and clears) a pending seek interrupt.
    fn exec_sense_int(&mut self)
        requires
            storage_ok(old(self)@),
            old(self).phase == Phase::Execution,
            old(self).command == Command::SenseIntStatus,
        ensures
            final(self).wf(),
            final(self)@ == spec_start_execution(old(self)@),
    {
        let was_pending = self.interrupt;
        self.interrupt = false;
        if was_pending {
            let sd = self.seek_drive.index();
            self.st0 = ST0_SE + sd as u8;
            if self.seek_is_recalibrate && !self.drive_at_track0[sd] {
                self.st0 = self.st0 + ST0_EC;
            }
        } else {
            self.st0 = ST0_IC_IC;
        }
        self.start_result_phase();
    }

    /// Read ID: reports the first sector header of the current cylinder.
    fn exec_read_id(&mut self)
        requires
            storage_ok(old(self)@),
            old(self).phase == Phase::Execution,
            old(self).command == Command::ReadID,
        ensures
            final(self).wf(),
            final(self)@ == spec_start_execution(old(self)@),
    {
        let us = drive_bits(self.buffer[1]);
        let drive_idx = us as usize;
        let side = side_bit(self.buffer[1]);
        let track = self.pcn[drive_idx];
        if !self.motor_state || !self.drive_ready[drive_idx] || self.disks[drive_idx].is_none() {
            self.st0 = ST0_NR | us;
            self.st1 = 0;
            self.st2 = 0;
        } else if !self.disk_track_formatted(drive_idx, track, side) {
            self.st0 = us;
            self.st1 = ST1_MA;
            self.st2 = 0;
        } else {
            self.st0 = us;
            self.st1 = 0;
            self.st2 = 0;
        }
        self.start_result_phase();
    }

    /// Read Data, Read Deleted Data, Read Track and the scans: the transfer
    /// starts at sector R, or the command ends at once.
    #[verifier::spinoff_prover]
    fn exec_read(&mut self)
        requires
            storage_ok(old(self)@),
            start_execution_ok(old(self)@),
            old(self).phase == Phase::Execution,
            spec_is_executing_read(old(self).command) || old(self).command == Command::ScanEqual
                || old(self).command == Command::ScanLowOrEqual || old(self).command
                == Command::ScanHighOrEqual,
        ensures
            final(self).wf(),
            final(self)@ == spec_exec_read(old(self)@),
    {
        let us = drive_bits(self.buffer[1]);
        let drive_idx = us as usize;
        let side = side_bit(self.buffer[1]);
        let track = self.buffer[2];
        if !self.motor_state || !self.drive_ready[drive_idx] || self.disks[drive_idx].is_none() {
            self.finish_with(ST0_NR | us, 0, 0);
        } else if !self.disk_track_formatted(drive_idx, track, side) {
            self.finish_with(us, ST1_MA, 0);
        } else {
            self.exec_sector = self.buffer[4];
            self.exec_sector_index = 0;
            self.exec_remaining = sector_size_u32(self.buffer[5]);
            self.exec_cycles = 0;
            self.weak_counter = self.weak_counter.wrapping_add(1);
            if !self.disk_has_sector(drive_idx, track, side, self.exec_sector) {
                self.finish_with(us, ST1_ND, 0);
            }
        }
    }

    /// Write Data and Write Deleted Data: the transfer starts at sector R,
    /// or the command ends at once.
    #[verifier::spinoff_prover]
    fn exec_write(&mut self)
        requires
            storage_ok(old(self)@),
            start_execution_ok(old(self)@),
            old(self).phase == Phase::Execution,
            old(self).command == Command::WriteData || old(self).command == Command::WriteDeletedData,
        ensures
            final(self).wf(),
            final(self)@ == spec_exec_write(old(self)@),
    {
        let us = drive_bits(self.buffer[1]);
        let drive_idx = us as usize;
        let side = side_bit(self.buffer[1]);
        let track = self.buffer[2];
        if !self.motor_state || !self.drive_ready[drive_idx] || self.disks[drive_idx].is_none() {
            self.finish_with(ST0_NR | us, 0, 0);
        } else if self.drive_write_protected[drive_idx] {
            self.finish_with(us, ST1_NW, 0);
        } else if !self.disk_track_formatted(drive_idx, track, side) {
            self.finish_with(us, ST1_MA, 0);
        } else {
            self.exec_sector = self.buffer[4];
            self.exec_sector_index = 0;
            self.exec_remaining = sector_size_u32(self.buffer[5]);
            self.exec_cycles = 0;
            if !self.disk_has_sector(drive_idx, track, side, self.exec_sector) {
                self.finish_with(us, ST1_ND, 0);
            }
        }
    }

    /// Format Track: the controller waits for the sector headers.
    fn exec_format(&mut self)
        requires
            storage_ok(old(self)@),
            old(self).phase == Phase::Execution,
            old(self).command == Command::FormatTrack,
        ensures
            final(self).wf(),
            final(self)@ == spec_start_execution(old(self)@),
    {
        let us = drive_bits(self.buffer[1]);
        let drive_idx = us as usize;
        if !self.motor_state || !self.drive_ready[drive_idx] || self.disks[drive_idx].is_none() {
            self.st0 = ST0_NR | us;
            self.st1 = 0;
            self.st2 = 0;
            self.start_result_phase();
        } else {
            self.format_sectors_remaining = self.buffer[3] as u32;
            self.format_byte_idx = 0;
            self.exec_cycles = 0;
        }
    }

    /// The track is formatted on the disk in drive `drive_idx`.
    fn disk_track_formatted(&self, drive_idx: usize, track: u8, side: u8) -> (r: bool)
        requires
            drive_idx < 4,
            self@.disks.len() == 4,
            forall|i: int| 0 <= i < 4 ==> (#[trigger] self@.disks[i] matches Some(d) ==> dv_wf(d)),
        ensures
            r == match self@.disks[drive_idx as int] {
                Some(d) => dv_track_at(d, track, side) is Some,
                None => false,
            },
    {
        match &self.disks[drive_idx] {
            Some(d) => d.is_track_formatted(track, side),
            None => false,
        }
    }

    /// The disk in drive `drive_idx` has sector `id` on the track.
    fn disk_has_sector(&self, drive_idx: usize, track: u8, side: u8, id: u8) -> (r: bool)
        requires
            drive_idx < 4,
            self@.disks.len() == 4,
            forall|i: int| 0 <= i < 4 ==> (#[trigger] self@.disks[i] matches Some(d) ==> dv_wf(d)),
        ensures
            r == match self@.disks[drive_idx as int] {
                Some(d) => dv_sector_data(d, track, side, id) is Some,
                None => false,
            },
    {
        match &self.disks[drive_idx] {
            Some(d) => d.sector_data_by_id(track, side, id).is_some(),
            None => false,
        }
    }

    /// Sets the status bytes and enters the result phase.
    fn finish_with(&mut self, st0: u8, st1: u8, st2: u8)
        requires
            storage_ok(old(self)@),
            has_result_phase(old(self).command),
        ensures
            final(self)@ == spec_start_result(with_status(old(self)@, st0, st1, st2)),
            view_wf(final(self)@),
    {
        self.st0 = st0;
        self.st1 = st1;
        self.st2 = st2;
        self.start_result_phase();
    }

    /// Enters the result phase with the result bytes of the command.
    pub fn start_result_phase(&mut self)
        requires
            storage_ok(old(self)@),
            has_result_phase(old(self).command),
        ensures
            final(self)@ == spec_start_result(old(self)@),
            view_wf(final(self)@),
    {
        reveal(spec_start_result);
        self.phase = Phase::Result;
        match self.command {
            Command::Version => self.result_version(),
            Command::ReadData | Command::ReadDeletedData | Command::WriteData
            | Command::WriteDeletedData | Command::ReadTrack | Command::FormatTrack
            | Command::ScanEqual | Command::ScanLowOrEqual | Command::ScanHighOrEqual => self.result_transfer(),
            Command::ReadID => self.result_read_id(),
            Command::SenseIntStatus => self.result_sense_int(),
            Command::SenseDriveStatus => self.result_sense_drive(),
            _ => self.result_invalid(),
        }
    }

    fn result_version(&mut self)
        requires
            storage_ok(old(self)@),
            old(self).phase == Phase::Result,
            old(self).command == Command::Version,
        ensures
            final(self)@ == spec_start_result(old(self)@),
            view_wf(final(self)@),
    {
        reveal(spec_start_result);
        self.st0 = match self.variant {
            Variant::Upd765A => 0x80,
            Variant::Upd765B => 0x90,
        };
        self.buffer = [0, 0, 0, 0, 0, 0, 0, 0, self.st0];
        self.buffer_idx = 8;
        proof {
            assert(self.buffer@ =~= seq![0u8, 0, 0, 0, 0, 0, 0, 0, self.st0]);
        }
    }

    fn result_transfer(&mut self)
        requires
            storage_ok(old(self)@),
            old(self).phase == Phase::Result,
            is_transfer(old(self).command) || old(self).command == Command::FormatTrack,
        ensures
            final(self)@ == spec_start_result(old(self)@),
            view_wf(final(self)@),
    {
        reveal(spec_start_result);
        let eot = self.buffer[6];
        let c = if self.exec_sector > eot {
            self.buffer[2].wrapping_add(1)
        } else {
            self.buffer[2]
        };
        let h = self.buffer[3];
        let r = if self.exec_sector > eot {
            0
        } else {
            self.exec_sector
        };
        let n = self.buffer[5];
        self.buffer = [0, 0, self.st0, self.st1, self.st2, c, h, r, n];
        self.buffer_idx = 2;
        proof {
            assert(self.buffer@ =~= seq![0u8, 0, self.st0, self.st1, self.st2, c, h, r, n]);
        }
    }

    fn result_read_id(&mut self)
        requires
            storage_ok(old(self)@),
            old(self).phase == Phase::Result,
            old(self).command == Command::ReadID,
        ensures
            final(self)@ == spec_start_result(old(self)@),
            view_wf(final(self)@),
    {
        reveal(spec_start_result);
        let drive_idx = drive_bits(self.buffer[1]) as usize;
        let side = side_bit(self.buffer[1]);
        let track = self.pcn[drive_idx];
        let info = match &self.disks[drive_idx] {
            Some(d) => d.first_sector_info(track, side),
            None => None,
        };
        let (c, h, r, n) = match info {
            Some(f) => f,
            None => (0, 0, 0, 0),
        };
        self.buffer = [0, 0, self.st0, self.st1, self.st2, c, h, r, n];
        self.buffer_idx = 2;
        proof {
            assert(self.buffer@ =~= seq![0u8, 0, self.st0, self.st1, self.st2, c, h, r, n]);
        }
    }

    fn result_sense_int(&mut self)
        requires
            storage_ok(old(self)@),
            old(self).phase == Phase::Result,
            old(self).command == Command::SenseIntStatus,
        ensures
            final(self)@ == spec_start_result(old(self)@),
            view_wf(final(self)@),
    {
        reveal(spec_start_result);
        let pcn = if self.st0 & ST0_IC_IC != 0 {
            0
        } else {
            self.pcn[self.seek_drive.index()]
        };
        self.buffer = [0, 0, 0, 0, 0, 0, 0, self.st0, pcn];
        self.buffer_idx = 7;
        proof {
            assert(self.buffer@ =~= seq![0u8, 0, 0, 0, 0, 0, 0, self.st0, pcn]);
        }
    }

    fn result_sense_drive(&mut self)
        requires
            storage_ok(old(self)@),
            old(self).phase == Phase::Result,
            old(self).command == Command::SenseDriveStatus,
        ensures
            final(self)@ == spec_start_result(old(self)@),
            view_wf(final(self)@),
    {
        reveal(spec_start_result);
        let drive = drive_bits(self.buffer[1]);
        let d = drive as usize;
        let b1 = self.buffer[1];
        let hd = b1 & ST3_HD;
        assert(hd <= 4) by (bit_vector)
            requires
                hd == b1 & 0x04,
        ;
        let st3 = (if self.drive_write_protected[d] { ST3_WP } else { 0 }) + (if self.drive_ready[d] {
            ST3_RY
        } else {
            0
        }) + (if self.drive_at_track0[d] { ST3_T0 } else { 0 }) + (if !self.drive_two_sided[d] {
            ST3_TS
        } else {
            0
        }) + hd + drive;
        self.buffer = [0, 0, 0, 0, 0, 0, 0, 0, st3];
        self.buffer_idx = 8;
        proof {
            assert(self.buffer@ =~= seq![0u8, 0, 0, 0, 0, 0, 0, 0, st3]);
        }
    }

    fn result_invalid(&mut self)
        requires
            storage_ok(old(self)@),
            old(self).phase == Phase::Result,
            old(self).command == Command::Invalid,
        ensures
            final(self)@ == spec_start_result(old(self)@),
            view_wf(final(self)@),
    {
        reveal(spec_start_result);
        self.buffer = [0, 0, 0, 0, 0, 0, 0, 0, self.st0];
        self.buffer_idx = 8;
        proof {
            assert(self.buffer@ =~= seq![0u8, 0, 0, 0, 0, 0, 0, 0, self.st0]);
        }
    }
}

/// Seven flags packed above the always-set bit 7, by addition.
proof fn lemma_flag_sum(dio: bool, exm: bool, cb: bool, d3: bool, d2: bool, d1: bool, d0: bool)
    ensures
        ({
            let x = (0x80 + (if dio { 0x40int } else { 0 }) + (if exm { 0x20int } else { 0 }) + (if cb {
                0x10int
            } else {
                0
            }) + (if d3 { 0x08int } else { 0 }) + (if d2 { 0x04int } else { 0 }) + (if d1 {
                0x02int
            } else {
                0
            }) + (if d0 { 0x01int } else { 0 })) as u8;
            &&& x & 0x80 != 0
            &&& (x & 0x40 != 0) == dio
            &&& (x & 0x20 != 0) == exm
            &&& (x & 0x10 != 0) == cb
            &&& (x & 0x08 != 0) == d3
            &&& (x & 0x04 != 0) == d2
            &&& (x & 0x02 != 0) == d1
            &&& (x & 0x01 != 0) == d0
        }),
{
    let x: u8 = (0x80 + (if dio { 0x40u8 } else { 0 }) + (if exm { 0x20u8 } else { 0 }) + (if cb {
        0x10u8
    } else {
        0
    }) + (if d3 { 0x08u8 } else { 0 }) + (if d2 { 0x04u8 } else { 0 }) + (if d1 { 0x02u8 } else {
        0
    }) + (if d0 { 0x01u8 } else { 0 })) as u8;
    assert({
        &&& x & 0x80 != 0
        &&& (x & 0x40 != 0) == dio
        &&& (x & 0x20 != 0) == exm
        &&& (x & 0x10 != 0) == cb
        &&& (x & 0x08 != 0) == d3
        &&& (x & 0x04 != 0) == d2
        &&& (x & 0x02 != 0) == d1
        &&& (x & 0x01 != 0) == d0
    }) by (bit_vector)
        requires
            x == (0x80 + (if dio { 0x40u8 } else { 0 }) + (if exm { 0x20u8 } else { 0 }) + (if cb {
                0x10u8
            } else {
                0
            }) + (if d3 { 0x08u8 } else { 0 }) + (if d2 { 0x04u8 } else { 0 }) + (if d1 {
                0x02u8
            } else {
                0
            }) + (if d0 { 0x01u8 } else { 0 })) as u8,
    ;
}

/// The main status register always requests the CPU (RQM); DIO is set
/// exactly in the result phase and while a read transfers data; EXM
/// exactly in execution; CB while a data command executes; DnB while a
/// seek or recalibrate on drive n executes.
pub proof fn law_msr_flags(v: ControllerView)
    ensures
        spec_msr(v) & MSR_RQM != 0,
        (spec_msr(v) & MSR_DIO != 0) == (v.phase == Phase::Result || (v.phase == Phase::Execution
            && spec_is_executing_read(v.command))),
        (spec_msr(v) & MSR_EXM != 0) == (v.phase == Phase::Execution),
        (spec_msr(v) & MSR_CB != 0) == (v.phase == Phase::Execution && spec_is_fdc_busy(v.command)),
        forall|d: Drive| #![trigger spec_drive_index(d)]
            (spec_msr(v) & (1u8 << spec_drive_index(d)) != 0) == (v.phase == Phase::Execution && (
            v.command == Command::Seek || v.command == Command::Recalibrate) && v.buffer[1] & 0x03
                == spec_drive_index(d)),
{
    let exec = v.phase == Phase::Execution;
    let b1 = v.buffer[1];
    let seeking = exec && (v.command == Command::Seek || v.command == Command::Recalibrate);
    lemma_flag_sum(
        v.phase == Phase::Result || (exec && spec_is_executing_read(v.command)),
        exec,
        exec && spec_is_fdc_busy(v.command),
        seeking && b1 & 0x03 == 3,
        seeking && b1 & 0x03 == 2,
        seeking && b1 & 0x03 == 1,
        seeking && b1 & 0x03 == 0,
    );
    assert(1u8 << 0u8 == 1 && 1u8 << 1u8 == 2 && 1u8 << 2u8 == 4 && 1u8 << 3u8 == 8) by (bit_vector);
}

/// The one-byte-opcode commands decode as themselves.
proof fn lemma_fixed_opcodes()
    ensures
        spec_parse_opcode(CMD_VERSION) == Command::Version,
        spec_parse_opcode(CMD_SPECIFY) == Command::Specify,
        spec_parse_opcode(CMD_SEEK) == Command::Seek,
        spec_parse_opcode(CMD_RECALIBRATE) == Command::Recalibrate,
        spec_parse_opcode(CMD_SENSE_INT_STATUS) == Command::SenseIntStatus,
        spec_parse_opcode(CMD_SENSE_DRIVE_STATUS) == Command::SenseDriveStatus,
{
    assert({
        &&& 0x10u8 & 0x1F == 0x10 && 0x10u8 & 0x3F == 0x10 && 0x10u8 & 0x9F == 0x10 && 0x10u8 & 0xBF == 0x10
        &&& 0x03u8 & 0x1F == 0x03 && 0x03u8 & 0x3F == 0x03 && 0x03u8 & 0x9F == 0x03 && 0x03u8 & 0xBF == 0x03
        &&& 0x0Fu8 & 0x1F == 0x0F && 0x0Fu8 & 0x3F == 0x0F && 0x0Fu8 & 0x9F == 0x0F && 0x0Fu8 & 0xBF == 0x0F
        &&& 0x07u8 & 0x1F == 0x07 && 0x07u8 & 0x3F == 0x07 && 0x07u8 & 0x9F == 0x07 && 0x07u8 & 0xBF == 0x07
        &&& 0x08u8 & 0x1F == 0x08 && 0x08u8 & 0x3F == 0x08 && 0x08u8 & 0x9F == 0x08 && 0x08u8 & 0xBF == 0x08
        &&& 0x04u8 & 0x1F == 0x04 && 0x04u8 & 0x3F == 0x04 && 0x04u8 & 0x9F == 0x04 && 0x04u8 & 0xBF == 0x04
    }) by (bit_vector);
}

/// The state after the CPU reads the data register `n` times.
pub open spec fn reads(v: ControllerView, n: nat) -> ControllerView
    decreases n,
{
    if n == 0 {
        v
    } else {
        spec_read_data(reads(v, (n - 1) as nat)).1
    }
}

/// In the result phase the controller ignores data register writes: a new
/// command cannot start before the results are read.
pub proof fn law_result_phase_ignores_writes(v: ControllerView, value: u8)
    requires
        v.phase == Phase::Result,
    ensures
        spec_write_data(v, value) == v,
{
}

/// The result bytes come out in order, from the index the command left to
/// the end of the buffer; reading the last one ends the result phase and
/// frees the controller for the next command.
pub proof fn law_result_bytes_drain(v: ControllerView, n: nat)
    requires
        view_wf(v),
        v.phase == Phase::Result,
        n <= 9 - v.buffer_idx,
    ensures
        reads(v, n).buffer == v.buffer,
        n < 9 - v.buffer_idx ==> reads(v, n).phase == Phase::Result && reads(v, n).buffer_idx
            == v.buffer_idx + n && spec_read_data(reads(v, n)).0 == v.buffer[v.buffer_idx + n],
        n == 9 - v.buffer_idx ==> reads(v, n).phase == Phase::Command && reads(v, n).buffer_idx == 0,
    decreases n,
{
    if n > 0 {
        law_result_bytes_drain(v, (n - 1) as nat);
    }
}

/// Version: a one-byte command answered at once by one result byte, 0x80
/// on the uPD765A and 0x90 on the uPD765B, after which the controller takes
/// commands again.
pub proof fn law_version_command(v: ControllerView)
    requires
        view_wf(v),
        v.phase == Phase::Command,
        v.buffer_idx == 0,
    ensures
        ({
            let w = spec_write_data(v, CMD_VERSION);
            let version: u8 = if v.variant == Variant::Upd765A { 0x80 } else { 0x90 };
            &&& w.phase == Phase::Result
            &&& w.buffer_idx == 8
            &&& spec_read_data(w).0 == version
            &&& spec_read_data(w).1.phase == Phase::Command
        }),
{
    reveal(spec_start_result);
    lemma_fixed_opcodes();
}

/// An opcode the controller does not know is answered by one result byte,
/// ST0 = 0x80 (invalid command).
pub proof fn law_invalid_command(v: ControllerView, opcode: u8)
    requires
        view_wf(v),
        v.phase == Phase::Command,
        v.buffer_idx == 0,
        spec_parse_opcode(opcode) == Command::Invalid,
    ensures
        ({
            let w = spec_write_data(v, opcode);
            &&& w.phase == Phase::Result
            &&& w.buffer_idx == 8
            &&& spec_read_data(w).0 == ST0_IC_IC
            &&& spec_read_data(w).1.phase == Phase::Command
        }),
{
    reveal(spec_start_result);
}

/// Specify takes its three bytes and returns straight to the command
/// phase, with no result phase.
pub proof fn law_specify_command(v: ControllerView, srt_hut: u8, hlt_nd: u8)
    requires
        view_wf(v),
        v.phase == Phase::Command,
        v.buffer_idx == 0,
    ensures
        ({
            let w = spec_write_data(
                spec_write_data(spec_write_data(v, CMD_SPECIFY), srt_hut),
                hlt_nd,
            );
            &&& w.phase == Phase::Command
            &&& w.buffer_idx == 0
        }),
{
    lemma_fixed_opcodes();
}

/// Seek: the three bytes start moving the heads of drive `unit & 3` to
/// cylinder `ncn`; the controller is in execution, with that drive busy,
/// until 1000 clock cycles have passed, when the present cylinder becomes
/// `ncn`, an interrupt is raised and commands are taken again.
pub proof fn law_seek_command(v: ControllerView, unit: u8, ncn: u8, cycles: u64)
    requires
        view_wf(v),
        v.phase == Phase::Command,
        v.buffer_idx == 0,
    ensures
        ({
            let w = spec_write_data(spec_write_data(spec_write_data(v, CMD_SEEK), unit), ncn);
            let t = spec_tick_seek(w, cycles);
            &&& w.phase == Phase::Execution
            &&& w.seek_pending
            &&& spec_drive_index(w.seek_drive) == unit & 0x03
            &&& w.seek_target == ncn
            &&& w.seek_cycles == 1000
            &&& cycles < 1000 ==> t.phase == Phase::Execution && t.seek_pending && t.pcn == v.pcn
            &&& cycles >= 1000 ==> {
                &&& t.phase == Phase::Command
                &&& t.buffer_idx == 0
                &&& t.interrupt
                &&& t.pcn == v.pcn.update((unit & 0x03) as int, ncn)
            }
        }),
{
    lemma_fixed_opcodes();
    assert(unit & 0x03 < 4) by (bit_vector);
}

/// Sense Interrupt Status answers a pending seek interrupt with ST0 (seek
/// end, the drive, and equipment check when a recalibrate did not find
/// track 0) and the drive's present cylinder, and clears the interrupt;
/// with no interrupt pending it answers ST0 = 0x80 (invalid) and 0.
pub proof fn law_sense_interrupt_status(v: ControllerView)
    requires
        view_wf(v),
        v.phase == Phase::Command,
        v.buffer_idx == 0,
    ensures
        ({
            let w = spec_write_data(v, CMD_SENSE_INT_STATUS);
            let sd = spec_drive_index(v.seek_drive);
            let ec: u8 = if v.seek_is_recalibrate && !v.drive_at_track0[sd as int] {
                ST0_EC
            } else {
                0
            };
            &&& w.phase == Phase::Result
            &&& w.buffer_idx == 7
            &&& !w.interrupt
            &&& v.interrupt ==> w.buffer[7] == ST0_SE + sd + ec && w.buffer[8] == v.pcn[sd as int]
            &&& !v.interrupt ==> w.buffer[7] == ST0_IC_IC && w.buffer[8] == 0
        }),
{
    reveal(spec_start_result);
    lemma_fixed_opcodes();
    let sd = spec_drive_index(v.seek_drive);
    assert(((0x20 + sd) as u8) & 0x80 == 0 && ((0x30 + sd) as u8) & 0x80 == 0 && 0x80u8 & 0x80 != 0)
        by (bit_vector)
        requires
            sd < 4,
    ;
    let w = spec_write_data(v, CMD_SENSE_INT_STATUS);
    if v.interrupt {
        if v.seek_is_recalibrate && !v.drive_at_track0[sd as int] {
            assert(w.st0 == (0x30 + sd) as u8);
        } else {
            assert(w.st0 == (0x20 + sd) as u8);
        }
    }
}

/// A transfer the CPU does not service within 104 clock cycles ends with
/// an overrun: abnormal termination (ST0 0x40 | drive), ST1 end of cylinder
/// plus overrun, except on the uPD765A when the missed byte was the last.
pub proof fn law_overrun(v: ControllerView, cycles: u64)
    requires
        view_wf(v),
        !v.seek_pending,
        v.phase == Phase::Execution,
        spec_is_executing_read(v.command),
        v.disks[cmd_drive(v)] is Some,
        v.exec_remaining > 0,
        v.exec_cycles + cycles >= 104,
        v.exec_cycles + cycles <= u64::MAX,
    ensures
        ({
            let t = spec_tick(v, cycles);
            &&& t.phase == Phase::Result
            &&& t.buffer[2] == (v.buffer[1] & 0x03) | ST0_IC_AT
            &&& t.buffer[3] == (if v.exec_remaining == 1 && v.variant == Variant::Upd765A {
                ST1_EN as int
            } else {
                ST1_EN + ST1_OR
            })
        }),
{
    reveal(spec_start_result);
}

/// Read Data hands the CPU the sector's bytes in order: from the start of
/// a sector stored at its nominal size, the k-th read of the data register
/// returns byte k, and the transfer stays on that sector until its last
/// byte.
pub proof fn law_read_data_returns_sector(v: ControllerView, k: nat)
    requires
        view_wf(v),
        v.phase == Phase::Execution,
        spec_is_executing_read(v.command),
        v.exec_sector_index == 0,
        cmd_sector(v, v.exec_sector) matches Some(d) && d.len() == cmd_sector_size(v),
        k < cmd_sector_size(v),
    ensures
        reads(v, k).phase == Phase::Execution,
        reads(v, k).command == v.command,
        reads(v, k).exec_sector == v.exec_sector,
        reads(v, k).exec_sector_index == k,
        reads(v, k).buffer == v.buffer,
        reads(v, k).disks == v.disks,
        spec_read_data(reads(v, k)).0 == cmd_sector(v, v.exec_sector)->Some_0[k as int],
    decreases k,
{
    lemma2_to64();
    if v.buffer[5] + 7 < 31 {
        lemma_pow2_strictly_increases((v.buffer[5] + 7) as nat, 31);
    }
    assert(cmd_sector_size(v) <= 0x8000_0000);
    if k > 0 {
        law_read_data_returns_sector(v, (k - 1) as nat);
    }
}

/// A data command that cannot run is answered at once, with seven result
/// bytes starting at ST0: a drive that is not ready (motor off, drive not
/// ready or no disk) gives ST0 = NR | unit; a write to a write-protected
/// disk gives ST1 = NW; an unformatted track gives ST1 = MA; a missing
/// first sector gives ST1 = ND.
pub proof fn law_refused_transfer(v: ControllerView)
    requires
        storage_ok(v),
        v.phase == Phase::Execution,
        is_transfer(v.command),
    ensures
        ({
            let d = cmd_drive(v);
            let us = v.buffer[1] & 0x03;
            let w = spec_start_execution(v);
            let write = v.command == Command::WriteData || v.command == Command::WriteDeletedData;
            &&& not_ready(v, d) ==> w.phase == Phase::Result && w.buffer_idx == 2 && w.buffer[2] == ST0_NR | us
                && w.buffer[3] == 0
            &&& !not_ready(v, d) && write && v.drive_write_protected[d] ==> w.phase == Phase::Result
                && w.buffer[2] == us && w.buffer[3] == ST1_NW
            &&& !not_ready(v, d) && !(write && v.drive_write_protected[d]) && !track_formatted(
                v,
                d,
                v.buffer[2],
            ) ==> w.phase == Phase::Result && w.buffer[2] == us && w.buffer[3] == ST1_MA
            &&& !not_ready(v, d) && !(write && v.drive_write_protected[d]) && track_formatted(
                v,
                d,
                v.buffer[2],
            ) && cmd_sector(v, v.buffer[4]) is None ==> w.phase == Phase::Result && w.buffer[2] == us
                && w.buffer[3] == ST1_ND
            &&& !not_ready(v, d) && !(write && v.drive_write_protected[d]) && track_formatted(
                v,
                d,
                v.buffer[2],
            ) && cmd_sector(v, v.buffer[4]) is Some ==> w.phase == Phase::Execution && w.exec_sector
                == v.buffer[4] && w.exec_sector_index == 0
        }),
{
    reveal(spec_start_result);
}

/// Weak sectors: a sector stored as `c` copies of its nominal size is read
/// from copy `w mod c`, where `w` counts the read commands started before
/// (the counter wraps at 2^32), so successive reads cycle through the copies.
pub proof fn law_weak_sector_copies(v: ControllerView, c: int)
    requires
        storage_ok(v),
        v.phase == Phase::Execution,
        spec_is_executing_read(v.command),
        !not_ready(v, cmd_drive(v)),
        track_formatted(v, cmd_drive(v), v.buffer[2]),
        v.weak_counter < 0xFFFF_FFFF,
        c >= 2,
        cmd_sector(v, v.buffer[4]) matches Some(d) && d.len() == c * cmd_sector_size(v),
    ensures
        ({
            let w = spec_start_execution(v);
            &&& w.phase == Phase::Execution
            &&& w.weak_counter == v.weak_counter + 1
            &&& read_offset(w, cmd_sector(w, w.exec_sector)->Some_0) == ((v.weak_counter as int) % c)
                * cmd_sector_size(v)
        }),
{
    let size = cmd_sector_size(v);
    lemma_pow2_pos((v.buffer[5] + 7) as nat);
    let d = cmd_sector(v, v.buffer[4])->Some_0;
    assert(d.len() as int / size == c) by (nonlinear_arith)
        requires
            d.len() == c * size,
            size > 0,
    ;
    assert(d.len() > size) by (nonlinear_arith)
        requires
            d.len() == c * size,
            size > 0,
            c >= 2,
    ;
}

/// Ejecting a disk undoes inserting it into an empty drive, and neither
/// touches the other drives.
pub proof fn law_eject_undoes_insert(v: ControllerView, drive: Drive, disk: DiskView, other: Drive)
    requires
        storage_ok(v),
        v.disks[spec_drive_index(drive) as int] is None,
        other != drive,
    ensures
        ({
            let i = spec_drive_index(drive) as int;
            let inserted = ControllerView { disks: v.disks.update(i, Some(disk)), ..v };
            let ejected = ControllerView { disks: inserted.disks.update(i, None), ..inserted };
            &&& ejected == v
            &&& inserted.disks[spec_drive_index(other) as int] == v.disks[spec_drive_index(other) as int]
        }),
{
    let i = spec_drive_index(drive) as int;
    assert(v.disks.update(i, Some(disk)).update(i, None) =~= v.disks);
}

/// Recalibrate: its two bytes start a head movement of the addressed drive
/// to cylinder 0, which completes after 1000 cycles with the interrupt
/// raised and the command phase back; a following Sense Interrupt Status
/// reports ST0 with SE (and EC when the drive is not at track 0).
pub proof fn law_recalibrate_command(v: ControllerView, unit: u8, cycles: u64)
    requires
        view_wf(v),
        v.phase == Phase::Command,
        v.buffer_idx == 0,
    ensures
        ({
            let w = spec_write_data(spec_write_data(v, CMD_RECALIBRATE), unit);
            let t = spec_tick_seek(w, cycles);
            &&& w.phase == Phase::Execution
            &&& w.seek_pending
            &&& w.seek_is_recalibrate
            &&& spec_drive_index(w.seek_drive) == unit & 0x03
            &&& w.seek_target == 0
            &&& w.seek_cycles == 1000
            &&& cycles < 1000 ==> t.phase == Phase::Execution && t.seek_pending && t.pcn == v.pcn
            &&& cycles >= 1000 ==> {
                &&& t.phase == Phase::Command
                &&& t.buffer_idx == 0
                &&& t.interrupt
                &&& t.seek_is_recalibrate
                &&& t.pcn == v.pcn.update((unit & 0x03) as int, 0)
            }
        }),
{
    lemma_fixed_opcodes();
    assert(unit & 0x03 < 4) by (bit_vector);
}

/// A Seek or Recalibrate in progress with no transfer left counts its time
/// in total: running the clock for `a` cycles and then `b` cycles gives the
/// state that `a + b` cycles at once give (once the seek is done, its
/// countdown keeps whatever it last held and is not read again).
pub proof fn law_seek_time_adds(v: ControllerView, a: u64, b: u64)
    requires
        v.command == Command::Seek || v.command == Command::Recalibrate,
        v.exec_remaining == 0,
        a + b <= u64::MAX,
    ensures
        ({
            let x = spec_tick(spec_tick(v, a), b);
            let y = spec_tick(v, (a + b) as u64);
            &&& x.seek_pending == y.seek_pending
            &&& x.seek_pending ==> x == y
            &&& x == ControllerView { seek_cycles: x.seek_cycles, ..y }
        }),
{
    let ab = (a + b) as u64;
    let s1 = spec_tick_seek(v, a);
    assert(spec_tick(v, a) == s1);
    assert(spec_tick(s1, b) == spec_tick_seek(s1, b));
    assert(spec_tick(v, ab) == spec_tick_seek(v, ab));
    if v.seek_pending {
        if v.seek_cycles > a {
            assert(s1.seek_pending && s1.seek_cycles == v.seek_cycles - a);
            if v.seek_cycles > ab {
                assert(spec_tick_seek(s1, b).seek_cycles == spec_tick_seek(v, ab).seek_cycles);
                assert(spec_tick_seek(s1, b) == spec_tick_seek(v, ab));
            }
        } else {
            assert(!s1.seek_pending);
            assert(spec_tick_seek(s1, b) == s1);
        }
    }
}

/// Command bytes: in the command phase each byte written is collected, the
/// first one choosing the command; before the command's last byte the
/// controller stays in the command phase with one more byte counted, and
/// the last byte starts the command, which leaves the command phase except
/// for Specify.
pub proof fn law_command_bytes(v: ControllerView, value: u8)
    requires
        view_wf(v),
        v.phase == Phase::Command,
    ensures
        ({
            let cmd = if v.buffer_idx == 0 { spec_parse_opcode(value) } else { v.command };
            let w = spec_write_data(v, value);
            &&& v.buffer_idx + 1 <= spec_expected_length(cmd)
            &&& v.buffer_idx + 1 < spec_expected_length(cmd) ==> {
                &&& w.phase == Phase::Command
                &&& w.command == cmd
                &&& w.buffer_idx == v.buffer_idx + 1
                &&& w.buffer[v.buffer_idx as int] == value
            }
            &&& v.buffer_idx + 1 == spec_expected_length(cmd) ==> (w.phase == Phase::Command
                <==> cmd == Command::Specify)
        }),
{
    reveal(spec_start_result);
}

} // verus!
