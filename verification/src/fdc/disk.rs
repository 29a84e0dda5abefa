use vstd::prelude::*;

use crate::bytes::{has_at, has_prefix, spec_has_at, spec_has_prefix};
use vstd::arithmetic::power2::{lemma2_to64, lemma_pow2_strictly_increases, pow2};

verus! {

pub const CREATOR: usize = 0x22;
pub const TRACKS: usize = 0x30;
pub const SIDES: usize = 0x31;
pub const TRACK_SIZE: usize = 0x32;
pub const TRACK_SIZE_TABLE: usize = 0x34;

pub const TRACK_NUMBER: usize = 0x10;
pub const SIDE_NUMBER: usize = 0x11;
pub const DATA_RATE: usize = 0x12;
pub const REC_MODE: usize = 0x13;
pub const SECTOR_SIZE: usize = 0x14;
pub const SECTOR_COUNT: usize = 0x15;
pub const GAP3: usize = 0x16;
pub const FILLER: usize = 0x17;
pub const SECTOR_INFO: usize = 0x18;
pub const SECTOR_INFO_SIZE: usize = 8;

/// Why a DSK image was refused.
#[derive(Debug, PartialEq, Eq, Clone, Copy, Structural)]
pub enum DiskError {
    InvalidHeader,
    InvalidTrackInfo,
    InvalidSectorInfo,
    Truncated,
}

/// The two DSK container formats.
#[derive(Debug, PartialEq, Eq, Clone, Copy, Structural)]
pub enum Format {
    Standard,
    Extended,
}

#[derive(Debug, PartialEq, Eq, Clone, Copy, Structural)]
pub enum DataRate {
    Unknown,
    SdDd,
    Hd,
    Ed,
}

#[derive(Debug, PartialEq, Eq, Clone, Copy, Structural)]
pub enum RecordingMode {
    Unknown,
    Fm,
    Mfm,
}

/// One sector: its ID field (C, H, R, N), the FDC status bytes stored with
/// it, and its data (several copies for a weak sector).
#[derive(Debug, PartialEq, Eq)]
pub struct SectorInfo {
    pub track: u8,
    pub side: u8,
    pub id: u8,
    pub size: u8,
    pub st1: u8,
    pub st2: u8,
    pub data_length: u16,
    pub data: Vec<u8>,
}

/// One track of the image.
#[derive(Debug, PartialEq, Eq)]
pub struct TrackInfo {
    pub track_size: u16,
    pub track_number: u8,
    pub side_number: u8,
    pub data_rate: DataRate,
    pub recording_mode: RecordingMode,
    pub sector_size: u8,
    pub sector_count: u8,
    pub gap3: u8,
    pub filler: u8,
    pub sectors: Vec<SectorInfo>,
}

/// A disk image: its format, creator, geometry and tracks (track `t`,
/// side `s` at index `t * side_count + s`; `None` is an unformatted track).
#[derive(Debug, PartialEq, Eq)]
pub struct Disk {
    pub format: Format,
    pub creator: [u8; 14],
    pub track_count: u8,
    pub side_count: u8,
    pub tracks: Vec<Option<TrackInfo>>,
}

/// The model of a sector.
pub struct SectorView {
    pub track: u8,
    pub side: u8,
    pub id: u8,
    pub size: u8,
    pub st1: u8,
    pub st2: u8,
    pub data_length: u16,
    pub data: Seq<u8>,
}

/// The model of a track.
pub struct TrackView {
    pub track_size: u16,
    pub track_number: u8,
    pub side_number: u8,
    pub data_rate: DataRate,
    pub recording_mode: RecordingMode,
    pub sector_size: u8,
    pub sector_count: u8,
    pub gap3: u8,
    pub filler: u8,
    pub sectors: Seq<SectorView>,
}

/// The model of a disk.
pub struct DiskView {
    pub format: Format,
    pub creator: Seq<u8>,
    pub track_count: u8,
    pub side_count: u8,
    pub tracks: Seq<Option<TrackView>>,
}

impl View for SectorInfo {
    type V = SectorView;

    open spec fn view(&self) -> SectorView {
        SectorView {
            track: self.track,
            side: self.side,
            id: self.id,
            size: self.size,
            st1: self.st1,
            st2: self.st2,
            data_length: self.data_length,
            data: self.data@,
        }
    }
}

impl View for TrackInfo {
    type V = TrackView;

    open spec fn view(&self) -> TrackView {
        TrackView {
            track_size: self.track_size,
            track_number: self.track_number,
            side_number: self.side_number,
            data_rate: self.data_rate,
            recording_mode: self.recording_mode,
            sector_size: self.sector_size,
            sector_count: self.sector_count,
            gap3: self.gap3,
            filler: self.filler,
            sectors: self.sectors@.map_values(|s: SectorInfo| s@),
        }
    }
}

/// The model of an optional track.
pub open spec fn track_view(t: Option<TrackInfo>) -> Option<TrackView> {
    match t {
        Some(t) => Some(t@),
        None => None,
    }
}

impl View for Disk {
    type V = DiskView;

    open spec fn view(&self) -> DiskView {
        DiskView {
            format: self.format,
            creator: self.creator@,
            track_count: self.track_count,
            side_count: self.side_count,
            tracks: self.tracks@.map_values(|t: Option<TrackInfo>| track_view(t)),
        }
    }
}

/// The byte size of a sector with size code `n`: 128 << n.
pub open spec fn spec_sector_bytes(n: int) -> int {
    pow2((n + 7) as nat) as int
}

/// The byte size of a sector with size code `n` (at most 8).
pub fn sector_bytes(n: u8) -> (r: u16)
    requires
        n < 9,
    ensures
        r == spec_sector_bytes(n as int),
        128 <= r <= 32768,
{
    proof {
        lemma2_to64();
        if n < 8 {
            lemma_pow2_strictly_increases((n + 7) as nat, 15);
        }
        vstd::bits::lemma_u16_shl_is_mul(1u16, (n + 7) as u16);
    }
    1u16 << (n + 7) as u16
}

// ----------------------------------------------------------------------
// The DSK format
// ----------------------------------------------------------------------
/// "MV - CPCEMU"
pub open spec fn standard_header() -> Seq<u8> {
    seq![0x4Du8, 0x56, 0x20, 0x2D, 0x20, 0x43, 0x50, 0x43, 0x45, 0x4D, 0x55]
}

/// "EXTENDED CPC DSK File"
pub open spec fn extended_header() -> Seq<u8> {
    seq![
        0x45u8, 0x58, 0x54, 0x45, 0x4E, 0x44, 0x45, 0x44, 0x20, 0x43, 0x50, 0x43, 0x20, 0x44,
        0x53, 0x4B, 0x20, 0x46, 0x69, 0x6C, 0x65,
    ]
}

/// "Track-Info\r\n"
pub open spec fn track_header() -> Seq<u8> {
    seq![0x54u8, 0x72, 0x61, 0x63, 0x6B, 0x2D, 0x49, 0x6E, 0x66, 0x6F, 0x0D, 0x0A]
}

/// What reading part of a DSK image gives.
pub enum ParseOutcome<T> {
    Parsed(T),
    Rejected(DiskError),
    /// Outside the reader's domain: reading would go past the end of the
    /// image, or a standard image has a sector size code of 9 or more.
    Unreadable,
}

/// The size of track entry `k` (track times sides plus side): the common
/// size of a standard image, or the high byte from the size table.
pub open spec fn spec_track_size(data: Seq<u8>, format: Format, k: int) -> int {
    if format == Format::Standard {
        data[TRACK_SIZE as int] + 256 * data[TRACK_SIZE + 1]
    } else {
        256 * data[TRACK_SIZE_TABLE + k]
    }
}

/// The data length of a sector: 128 << N in a standard image, the stored
/// length in an extended one.
pub open spec fn spec_data_length(data: Seq<u8>, format: Format, so: int) -> int {
    if format == Format::Standard {
        spec_sector_bytes(data[so + 3] as int)
    } else {
        data[so + 6] + 256 * data[so + 7]
    }
}

/// The sector information entries of the track at `offset` can be read.
pub open spec fn sector_infos_readable(data: Seq<u8>, format: Format, offset: int, count: int) -> bool {
    forall|s: int| 0 <= s < count ==> #[trigger] sector_info_readable(data, format, offset, s)
}

/// Sector entry `s` of the track at `offset` can be read (and, in a
/// standard image, has a size code below 9).
pub open spec fn sector_info_readable(data: Seq<u8>, format: Format, offset: int, s: int) -> bool {
    let so = offset + SECTOR_INFO + s * SECTOR_INFO_SIZE;
    if format == Format::Standard {
        so + 6 <= data.len() && data[so + 3] < 9
    } else {
        so + 8 <= data.len()
    }
}

/// `x` holds the fields of sector entry `i` of the track at `offset`.
pub open spec fn header_matches(data: Seq<u8>, format: Format, offset: int, i: int, x: SectorHeader) -> bool {
    let so = offset + SECTOR_INFO + i * SECTOR_INFO_SIZE;
    &&& x.track == data[so]
    &&& x.side == data[so + 1]
    &&& x.id == data[so + 2]
    &&& x.size == data[so + 3]
    &&& x.st1 == data[so + 4]
    &&& x.st2 == data[so + 5]
    &&& x.data_length == spec_data_length(data, format, so)
}

/// The sector entry `s` of the track at `offset`, with the data that
/// starts at `start`.
pub open spec fn spec_sector(data: Seq<u8>, format: Format, offset: int, s: int, start: int) -> SectorView {
    let so = offset + SECTOR_INFO + s * SECTOR_INFO_SIZE;
    let len = spec_data_length(data, format, so);
    SectorView {
        track: data[so],
        side: data[so + 1],
        id: data[so + 2],
        size: data[so + 3],
        st1: data[so + 4],
        st2: data[so + 5],
        data_length: len as u16,
        data: data.subrange(start, start + len),
    }
}

/// Where the data of sector `s` starts: sector data is packed after the
/// track information block, rounded up to 256 bytes.
pub open spec fn spec_sector_start(data: Seq<u8>, format: Format, offset: int, count: int, s: int) -> int
    decreases s,
{
    if s <= 0 {
        (offset + SECTOR_INFO + count * SECTOR_INFO_SIZE + 0xFF) / 0x100 * 0x100
    } else {
        spec_sector_start(data, format, offset, count, s - 1) + spec_data_length(
            data,
            format,
            offset + SECTOR_INFO + (s - 1) * SECTOR_INFO_SIZE,
        )
    }
}

/// The data of all `count` sectors fits within the track.
pub open spec fn sectors_fit(data: Seq<u8>, format: Format, offset: int, count: int, size: int) -> bool {
    forall|s: int|
        0 <= s < count ==> #[trigger] spec_sector_start(data, format, offset, count, s)
            + spec_data_length(data, format, offset + SECTOR_INFO + s * SECTOR_INFO_SIZE) <= offset
            + size
}

/// The data rate that a track information byte codes.
pub open spec fn spec_data_rate(b: u8) -> DataRate {
    if b == 0 {
        DataRate::Unknown
    } else if b == 1 {
        DataRate::SdDd
    } else if b == 2 {
        DataRate::Hd
    } else {
        DataRate::Ed
    }
}

/// The recording mode that a track information byte codes.
pub open spec fn spec_recording_mode(b: u8) -> RecordingMode {
    if b == 0 {
        RecordingMode::Unknown
    } else if b == 1 {
        RecordingMode::Fm
    } else {
        RecordingMode::Mfm
    }
}

/// Reads track entry `k`, whose block starts at `offset`: the track and
/// where the next track block starts.
pub open spec fn spec_track(data: Seq<u8>, format: Format, k: int, offset: int) -> ParseOutcome<
    (Option<TrackView>, int),
> {
    if format == Format::Extended && TRACK_SIZE_TABLE + k >= data.len() {
        ParseOutcome::Unreadable
    } else {
        let size = spec_track_size(data, format, k);
        if size == 0 {
            ParseOutcome::Parsed((None, offset))
        } else if data.len() < offset + size {
            ParseOutcome::Rejected(DiskError::Truncated)
        } else if !spec_has_at(data, offset, track_header()) {
            ParseOutcome::Rejected(DiskError::InvalidTrackInfo)
        } else if offset + DATA_RATE + 1 > data.len() {
            ParseOutcome::Unreadable
        } else if data[offset + DATA_RATE] > 3 {
            ParseOutcome::Rejected(DiskError::InvalidTrackInfo)
        } else if offset + REC_MODE + 1 > data.len() {
            ParseOutcome::Unreadable
        } else if data[offset + REC_MODE] > 2 {
            ParseOutcome::Rejected(DiskError::InvalidTrackInfo)
        } else if offset + FILLER + 1 > data.len() {
            ParseOutcome::Unreadable
        } else {
            let count = data[offset + SECTOR_COUNT] as int;
            if !sector_infos_readable(data, format, offset, count) {
                ParseOutcome::Unreadable
            } else if !sectors_fit(data, format, offset, count, size) {
                ParseOutcome::Rejected(DiskError::Truncated)
            } else {
                ParseOutcome::Parsed(
                    (
                        Some(
                            TrackView {
                                track_size: size as u16,
                                track_number: data[offset + TRACK_NUMBER],
                                side_number: data[offset + SIDE_NUMBER],
                                data_rate: spec_data_rate(data[offset + DATA_RATE]),
                                recording_mode: spec_recording_mode(data[offset + REC_MODE]),
                                sector_size: data[offset + SECTOR_SIZE],
                                sector_count: count as u8,
                                gap3: data[offset + GAP3],
                                filler: data[offset + FILLER],
                                sectors: Seq::new(
                                    count as nat,
                                    |s: int|
                                        spec_sector(
                                            data,
                                            format,
                                            offset,
                                            s,
                                            spec_sector_start(data, format, offset, count, s),
                                        ),
                                ),
                            },
                        ),
                        offset + size,
                    ),
                )
            }
        }
    }
}

/// Reads the track entries from `k` on (of `total`), the first block at `offset`.
pub open spec fn spec_tracks(data: Seq<u8>, format: Format, total: int, k: int, offset: int) -> ParseOutcome<
    Seq<Option<TrackView>>,
>
    decreases total - k,
{
    if k >= total {
        ParseOutcome::Parsed(seq![])
    } else {
        match spec_track(data, format, k, offset) {
            ParseOutcome::Parsed((t, next)) => match spec_tracks(data, format, total, k + 1, next) {
                ParseOutcome::Parsed(rest) => ParseOutcome::Parsed(seq![t] + rest),
                ParseOutcome::Rejected(e) => ParseOutcome::Rejected(e),
                ParseOutcome::Unreadable => ParseOutcome::Unreadable,
            },
            ParseOutcome::Rejected(e) => ParseOutcome::Rejected(e),
            ParseOutcome::Unreadable => ParseOutcome::Unreadable,
        }
    }
}

/// Reads a DSK image: at least 256 bytes, a standard or extended header,
/// one or two sides, then the tracks.
pub open spec fn spec_parse_disk(data: Seq<u8>) -> ParseOutcome<DiskView> {
    if data.len() < 256 {
        ParseOutcome::Rejected(DiskError::Truncated)
    } else if !spec_has_prefix(data, standard_header()) && !spec_has_prefix(data, extended_header()) {
        ParseOutcome::Rejected(DiskError::InvalidHeader)
    } else {
        let format = if spec_has_prefix(data, standard_header()) {
            Format::Standard
        } else {
            Format::Extended
        };
        let track_count = data[TRACKS as int];
        let side_count = data[SIDES as int];
        if side_count != 1 && side_count != 2 {
            ParseOutcome::Rejected(DiskError::InvalidHeader)
        } else {
            match spec_tracks(data, format, track_count * side_count, 0, 0x100) {
                ParseOutcome::Parsed(tracks) => ParseOutcome::Parsed(
                    DiskView {
                        format,
                        creator: data.subrange(CREATOR as int, TRACKS as int),
                        track_count,
                        side_count,
                        tracks,
                    },
                ),
                ParseOutcome::Rejected(e) => ParseOutcome::Rejected(e),
                ParseOutcome::Unreadable => ParseOutcome::Unreadable,
            }
        }
    }
}

/// The header fields of one sector entry.
#[derive(Clone, Copy)]
pub struct SectorHeader {
    pub track: u8,
    pub side: u8,
    pub id: u8,
    pub size: u8,
    pub st1: u8,
    pub st2: u8,
    pub data_length: u16,
}

/// `tracks` are the models of `exec`.
pub open spec fn tracks_match(exec: Seq<Option<TrackInfo>>, tracks: Seq<Option<TrackView>>) -> bool {
    exec.map_values(|t: Option<TrackInfo>| track_view(t)) == tracks
}

/// `prefix` followed by what the rest reads to.
pub open spec fn prepend_tracks(
    prefix: Seq<Option<TrackView>>,
    rest: ParseOutcome<Seq<Option<TrackView>>>,
) -> ParseOutcome<Seq<Option<TrackView>>> {
    match rest {
        ParseOutcome::Parsed(r) => ParseOutcome::Parsed(prefix + r),
        ParseOutcome::Rejected(e) => ParseOutcome::Rejected(e),
        ParseOutcome::Unreadable => ParseOutcome::Unreadable,
    }
}

impl Disk {
    /// Track entries are stored for every track and side of the geometry.
    pub open spec fn wf(&self) -> bool {
        dv_wf(self@)
    }

    /// Reads the sector entries of the track whose block starts at `offset`;
    /// `None` when an entry cannot be read.
    pub fn read_sector_headers(data: &[u8], format: Format, offset: usize, count: u8) -> (r: Option<
        Vec<SectorHeader>,
    >)
        requires
            offset + FILLER + 1 <= data@.len(),
            data@.len() <= isize::MAX,
        ensures
            r is None <==> !sector_infos_readable(data@, format, offset as int, count as int),
            r matches Some(h) ==> h@.len() == count && forall|i: int|
                0 <= i < count ==> header_matches(data@, format, offset as int, i, #[trigger] h@[i]),
    {
        let mut headers: Vec<SectorHeader> = Vec::new();
        let mut s: u8 = 0;
        while s < count
            invariant
                offset + FILLER + 1 <= data@.len(),
                data@.len() <= isize::MAX,
                s <= count,
                headers@.len() == s,
                sector_infos_readable(data@, format, offset as int, s as int),
                forall|i: int|
                    0 <= i < s ==> header_matches(data@, format, offset as int, i, #[trigger] headers@[i]),
            decreases count - s,
        {
            let so = offset + SECTOR_INFO + s as usize * SECTOR_INFO_SIZE;
            let needed: usize = if format == Format::Standard { 6 } else { 8 };
            if so > data.len() || needed > data.len() - so || (format == Format::Standard && data[so + 3] >= 9) {
                proof {
                    assert(!sector_info_readable(data@, format, offset as int, s as int));
                }
                return None;
            }
            let data_length = if format == Format::Standard {
                sector_bytes(data[so + 3])
            } else {
                (data[so + 6] as u16) + 256 * (data[so + 7] as u16)
            };
            headers.push(
                SectorHeader {
                    track: data[so],
                    side: data[so + 1],
                    id: data[so + 2],
                    size: data[so + 3],
                    st1: data[so + 4],
                    st2: data[so + 5],
                    data_length,
                },
            );
            s = s + 1;
        }
        Some(headers)
    }

    /// Reads track entry `k` whose block starts at `offset`.
    #[verifier::loop_isolation(false)]
    pub fn parse_track(data: &[u8], format: Format, k: usize, offset: usize) -> (r: ParseOutcome<
        (Option<TrackInfo>, usize),
    >)
        requires
            data@.len() >= 256,
            offset <= data@.len(),
            data@.len() <= isize::MAX,
            k < 512,
        ensures
            match spec_track(data@, format, k as int, offset as int) {
                ParseOutcome::Parsed((t, next)) => r matches ParseOutcome::Parsed((et, enext)) && track_view(et) == t
                    && enext == next,
                ParseOutcome::Rejected(e) => r == ParseOutcome::<(Option<TrackInfo>, usize)>::Rejected(e),
                ParseOutcome::Unreadable => r is Unreadable,
            },
    {
        if format == Format::Extended && TRACK_SIZE_TABLE + k >= data.len() {
            return ParseOutcome::Unreadable;
        }
        let track_size: u16 = if format == Format::Standard {
            (data[TRACK_SIZE] as u16) + 256 * (data[TRACK_SIZE + 1] as u16)
        } else {
            256 * (data[TRACK_SIZE_TABLE + k] as u16)
        };
        if track_size == 0 {
            return ParseOutcome::Parsed((None, offset));
        }
        if track_size as usize > data.len() - offset {
            return ParseOutcome::Rejected(DiskError::Truncated);
        }
        let header: [u8; 12] = [0x54, 0x72, 0x61, 0x63, 0x6B, 0x2D, 0x49, 0x6E, 0x66, 0x6F, 0x0D, 0x0A];
        assert(header@ == track_header());
        if !has_at(data, offset, &header) {
            return ParseOutcome::Rejected(DiskError::InvalidTrackInfo);
        }
        if DATA_RATE + 1 > data.len() - offset {
            return ParseOutcome::Unreadable;
        }
        let track_number = data[offset + TRACK_NUMBER];
        let side_number = data[offset + SIDE_NUMBER];
        let data_rate = match data[offset + DATA_RATE] {
            0 => DataRate::Unknown,
            1 => DataRate::SdDd,
            2 => DataRate::Hd,
            3 => DataRate::Ed,
            _ => return ParseOutcome::Rejected(DiskError::InvalidTrackInfo),
        };
        if REC_MODE + 1 > data.len() - offset {
            return ParseOutcome::Unreadable;
        }
        let recording_mode = match data[offset + REC_MODE] {
            0 => RecordingMode::Unknown,
            1 => RecordingMode::Fm,
            2 => RecordingMode::Mfm,
            _ => return ParseOutcome::Rejected(DiskError::InvalidTrackInfo),
        };
        if FILLER + 1 > data.len() - offset {
            return ParseOutcome::Unreadable;
        }
        let sector_size = data[offset + SECTOR_SIZE];
        let sector_count = data[offset + SECTOR_COUNT];
        let gap3 = data[offset + GAP3];
        let filler = data[offset + FILLER];
        let headers = match Self::read_sector_headers(data, format, offset, sector_count) {
            Some(h) => h,
            None => return ParseOutcome::Unreadable,
        };
        let end = offset + track_size as usize;
        let ghost count = sector_count as int;
        let mut sector_data_start = (offset + SECTOR_INFO + sector_count as usize * SECTOR_INFO_SIZE
            + 0xFF) / 0x100 * 0x100;
        let mut sectors: Vec<SectorInfo> = Vec::with_capacity(sector_count as usize);
        let mut s: usize = 0;
        while s < headers.len()
            invariant
                headers@.len() == count,
                end == offset + spec_track_size(data@, format, k as int),
                end <= data@.len(),
                data@.len() <= isize::MAX,
                sector_infos_readable(data@, format, offset as int, count),
                forall|i: int|
                    0 <= i < count ==> header_matches(data@, format, offset as int, i, #[trigger] headers@[i]),
                s <= count,
                sectors@.len() == s,
                sector_data_start == spec_sector_start(data@, format, offset as int, count, s as int),
                forall|i: int|
                    0 <= i < s ==> #[trigger] spec_sector_start(data@, format, offset as int, count, i)
                        + spec_data_length(data@, format, offset + SECTOR_INFO + i * SECTOR_INFO_SIZE)
                        <= end,
                forall|i: int|
                    0 <= i < s ==> #[trigger] sectors@[i]@ == spec_sector(
                        data@,
                        format,
                        offset as int,
                        i,
                        spec_sector_start(data@, format, offset as int, count, i),
                    ),
            decreases count - s,
        {
            let h = headers[s];
            let len = h.data_length as usize;
            if sector_data_start > end || len > end - sector_data_start {
                proof {
                    assert(!sectors_fit(data@, format, offset as int, count, spec_track_size(data@, format, k as int)))
                        by {
                        assert(!(spec_sector_start(data@, format, offset as int, count, s as int)
                            + spec_data_length(data@, format, offset + SECTOR_INFO + s * SECTOR_INFO_SIZE)
                            <= end));
                    }
                    assert(spec_track(data@, format, k as int, offset as int) == ParseOutcome::<(Option<TrackView>, int)>::Rejected(DiskError::Truncated));
                }
                return ParseOutcome::Rejected(DiskError::Truncated);
            }
            let mut bytes: Vec<u8> = Vec::with_capacity(len);
            let mut j: usize = 0;
            while j < len
                invariant
                    sector_data_start + len <= end,
                    end <= data@.len(),
                    j <= len,
                    bytes@ == data@.subrange(sector_data_start as int, sector_data_start + j),
                decreases len - j,
            {
                bytes.push(data[sector_data_start + j]);
                j = j + 1;
                proof {
                    assert(bytes@ =~= data@.subrange(sector_data_start as int, sector_data_start + j));
                }
            }
            sectors.push(
                SectorInfo {
                    track: h.track,
                    side: h.side,
                    id: h.id,
                    size: h.size,
                    st1: h.st1,
                    st2: h.st2,
                    data_length: h.data_length,
                    data: bytes,
                },
            );
            sector_data_start = sector_data_start + len;
            s = s + 1;
        }
        let ti = TrackInfo {
            track_size,
            track_number,
            side_number,
            data_rate,
            recording_mode,
            sector_size,
            sector_count,
            gap3,
            filler,
            sectors,
        };
        proof {
            let size = spec_track_size(data@, format, k as int);
            assert(sectors_fit(data@, format, offset as int, count, size));
            let expected = Seq::new(
                count as nat,
                |i: int|
                    spec_sector(
                        data@,
                        format,
                        offset as int,
                        i,
                        spec_sector_start(data@, format, offset as int, count, i),
                    ),
            );
            assert(ti@.sectors =~= expected);
        }
        ParseOutcome::Parsed((Some(ti), end))
    }

    /// Reads a DSK image; `Unreadable` where the reader of the format would
    /// not return.
    #[verifier::loop_isolation(false)]
    #[verifier::spinoff_prover]
    #[verifier::rlimit(60)]
    pub fn parse(data: &[u8]) -> (r: ParseOutcome<Disk>)
        requires
            data@.len() <= isize::MAX,
        ensures
            match spec_parse_disk(data@) {
                ParseOutcome::Parsed(v) => r matches ParseOutcome::Parsed(d) && d@ == v && d.wf(),
                ParseOutcome::Rejected(e) => r == ParseOutcome::<Disk>::Rejected(e),
                ParseOutcome::Unreadable => r is Unreadable,
            },
    {
        if data.len() < 256 {
            return ParseOutcome::Rejected(DiskError::Truncated);
        }
        let std_header: [u8; 11] = [0x4D, 0x56, 0x20, 0x2D, 0x20, 0x43, 0x50, 0x43, 0x45, 0x4D, 0x55];
        let ext_header: [u8; 21] = [
            0x45, 0x58, 0x54, 0x45, 0x4E, 0x44, 0x45, 0x44, 0x20, 0x43, 0x50, 0x43, 0x20, 0x44,
            0x53, 0x4B, 0x20, 0x46, 0x69, 0x6C, 0x65,
        ];
        assert(std_header@ == standard_header());
        assert(ext_header@ == extended_header());
        let format = if has_prefix(data, &std_header) {
            Format::Standard
        } else if has_prefix(data, &ext_header) {
            Format::Extended
        } else {
            return ParseOutcome::Rejected(DiskError::InvalidHeader);
        };
        let mut creator = [0u8; 14];
        let mut i: usize = 0;
        while i < 14
            invariant
                data@.len() >= 256,
                i <= 14,
                forall|j: int| 0 <= j < i ==> #[trigger] creator@[j] == data@[CREATOR + j],
            decreases 14 - i,
        {
            creator[i] = data[CREATOR + i];
            i = i + 1;
        }
        assert(creator@ =~= data@.subrange(CREATOR as int, TRACKS as int));
        let track_count = data[TRACKS];
        let side_count = data[SIDES];
        if side_count != 1 && side_count != 2 {
            return ParseOutcome::Rejected(DiskError::InvalidHeader);
        }
        let total = track_count as usize * side_count as usize;
        let mut tracks: Vec<Option<TrackInfo>> = Vec::with_capacity(total);
        let mut offset: usize = 0x100;
        let mut k: usize = 0;
        proof {
            assert(tracks@.map_values(|t: Option<TrackInfo>| track_view(t)) =~= Seq::<Option<TrackView>>::empty());
            assert(Seq::<Option<TrackView>>::empty() + Seq::<Option<TrackView>>::empty() =~= Seq::<Option<TrackView>>::empty());
        }
        while k < total
            invariant
                data@.len() >= 256,
                data@.len() <= isize::MAX,
                total == track_count * side_count,
                total <= 510,
                k <= total,
                offset <= data@.len(),
                tracks@.len() == k,
                spec_tracks(data@, format, total as int, 0, 0x100) == prepend_tracks(
                    tracks@.map_values(|t: Option<TrackInfo>| track_view(t)),
                    spec_tracks(data@, format, total as int, k as int, offset as int),
                ),
            decreases total - k,
        {
            let ghost before = tracks@.map_values(|t: Option<TrackInfo>| track_view(t));
            match Self::parse_track(data, format, k, offset) {
                ParseOutcome::Parsed((t, next)) => {
                    let ghost tv = track_view(t);
                    tracks.push(t);
                    proof {
                        assert(tracks@.map_values(|t: Option<TrackInfo>| track_view(t)) =~= before.push(tv));
                        let rest = spec_tracks(data@, format, total as int, k + 1, next as int);
                        match rest {
                            ParseOutcome::Parsed(r) => {
                                assert(before + (seq![tv] + r) =~= before.push(tv) + r);
                            },
                            _ => {},
                        }
                    }
                    offset = next;
                },
                ParseOutcome::Rejected(e) => {
                    assert(spec_tracks(data@, format, total as int, k as int, offset as int)
                        == ParseOutcome::<Seq<Option<TrackView>>>::Rejected(e));
                    return ParseOutcome::Rejected(e);
                },
                ParseOutcome::Unreadable => {
                    assert(spec_tracks(data@, format, total as int, k as int, offset as int) is Unreadable);
                    return ParseOutcome::Unreadable;
                },
            }
            k = k + 1;
        }
        proof {
            let tv = tracks@.map_values(|t: Option<TrackInfo>| track_view(t));
            assert(tv + Seq::<Option<TrackView>>::empty() =~= tv);
        }
        ParseOutcome::Parsed(Disk { creator, format, track_count, side_count, tracks })
    }

    /// Whether the reader of the format returns on `data` (it does not when
    /// it would read past the end of the image, or on a standard image with
    /// a sector size code of 9 or more).
    pub fn is_readable_dsk(data: &[u8]) -> (r: bool)
        requires
            data@.len() <= isize::MAX,
        ensures
            r == !(spec_parse_disk(data@) is Unreadable),
    {
        match Self::parse(data) {
            ParseOutcome::Unreadable => false,
            _ => true,
        }
    }

    /// Reads a DSK image (standard "MV - CPCEMU" or extended "EXTENDED CPC
    /// DSK File").
    pub fn from_bytes(data: &[u8]) -> (r: Result<Self, DiskError>)
        requires
            data@.len() <= isize::MAX,
            !(spec_parse_disk(data@) is Unreadable),
        ensures
            match spec_parse_disk(data@) {
                ParseOutcome::Parsed(v) => r matches Ok(d) && d@ == v && d.wf(),
                ParseOutcome::Rejected(e) => r == Err::<Disk, DiskError>(e),
                ParseOutcome::Unreadable => false,
            },
    {
        match Self::parse(data) {
            ParseOutcome::Parsed(d) => Ok(d),
            ParseOutcome::Rejected(e) => Err(e),
            ParseOutcome::Unreadable => Err(DiskError::Truncated),
        }
    }
}


/// Sector `i` is the first of `sectors` with ID `id`.
pub open spec fn first_with_id(sectors: Seq<SectorView>, id: u8, i: int) -> bool {
    &&& 0 <= i < sectors.len()
    &&& sectors[i].id == id
    &&& forall|j: int| 0 <= j < i ==> (#[trigger] sectors[j]).id != id
}

/// No sector of `sectors` has ID `id`.
pub open spec fn no_sector_with_id(sectors: Seq<SectorView>, id: u8) -> bool {
    forall|j: int| 0 <= j < sectors.len() ==> (#[trigger] sectors[j]).id != id
}

/// The ID field (C, H, R, N) of a sector.
pub open spec fn id_field(s: SectorView) -> (u8, u8, u8, u8) {
    (s.track, s.side, s.id, s.size)
}

/// A freshly formatted sector with ID field `f`, `sz` bytes of `filler`.
pub open spec fn formatted_sector(f: (u8, u8, u8, u8), sz: int, filler: u8) -> SectorView {
    SectorView {
        track: f.0,
        side: f.1,
        id: f.2,
        size: f.3,
        st1: 0,
        st2: 0,
        data_length: sz as u16,
        data: Seq::new(sz as nat, |i: int| filler),
    }
}

/// The track at `track`, `side` of disk model `d`, when inside the geometry.
pub open spec fn dv_track_at(d: DiskView, track: u8, side: u8) -> Option<TrackView> {
    if track >= d.track_count || side >= d.side_count {
        None
    } else {
        d.tracks[d.side_count * track + side]
    }
}

/// The data of the first sector with ID `id` on a track of disk model `d`.
pub open spec fn dv_sector_data(d: DiskView, track: u8, side: u8, id: u8) -> Option<Seq<u8>> {
    match dv_track_at(d, track, side) {
        Some(t) => if exists|i: int| first_with_id(t.sectors, id, i) {
            Some(t.sectors[choose|i: int| first_with_id(t.sectors, id, i)].data)
        } else {
            None
        },
        None => None,
    }
}

/// The ID field of the first sector of a track of disk model `d`.
pub open spec fn dv_first_info(d: DiskView, track: u8, side: u8) -> Option<(u8, u8, u8, u8)> {
    match dv_track_at(d, track, side) {
        Some(t) => if t.sectors.len() > 0 {
            Some(id_field(t.sectors[0]))
        } else {
            None
        },
        None => None,
    }
}

/// Disk model `d` stores an entry for every track and side.
pub open spec fn dv_wf(d: DiskView) -> bool {
    d.tracks.len() >= d.track_count * d.side_count
}

/// There is only one first sector with a given ID.
pub proof fn lemma_first_unique(s: Seq<SectorView>, id: u8, i: int, j: int)
    requires
        first_with_id(s, id, i),
        first_with_id(s, id, j),
    ensures
        i == j,
{
    if i < j {
        assert(s[i].id != id);
    } else if j < i {
        assert(s[j].id != id);
    }
}

impl Disk {
    /// The track at `track`, `side` when inside the geometry.
    pub open spec fn track_at(&self, track: u8, side: u8) -> Option<TrackView> {
        dv_track_at(self@, track, side)
    }

    /// Index of the track entry for `track`, `side`.
    pub open spec fn entry(&self, track: u8, side: u8) -> int {
        self.side_count * track + side
    }

    pub fn format(&self) -> (r: Format)
        ensures
            r == self.format,
    {
        self.format
    }

    /// The creator string: the creator field up to its first zero byte.
    pub fn creator(&self) -> (r: &[u8])
        ensures
            r@.len() <= 14,
            r@ == self.creator@.subrange(0, r@.len() as int),
            forall|i: int| 0 <= i < r@.len() ==> r@[i] != 0,
            r@.len() < 14 ==> self.creator@[r@.len() as int] == 0,
    {
        let mut len: usize = 0;
        while len < 14 && self.creator[len] != 0
            invariant
                len <= 14,
                forall|i: int| 0 <= i < len ==> self.creator@[i] != 0,
            decreases 14 - len,
        {
            len = len + 1;
        }
        vstd::slice::slice_subrange(self.creator.as_slice(), 0, len)
    }

    pub fn track_count(&self) -> (r: u8)
        ensures
            r == self.track_count,
    {
        self.track_count
    }

    pub fn side_count(&self) -> (r: u8)
        ensures
            r == self.side_count,
    {
        self.side_count
    }

    /// The track at `track`, `side`, if inside the geometry and formatted.
    pub fn track(&self, track: u8, side: u8) -> (r: Option<&TrackInfo>)
        requires
            self.wf(),
        ensures
            match r {
                Some(t) => self.track_at(track, side) == Some(t@),
                None => self.track_at(track, side) is None,
            },
    {
        if track >= self.track_count || side >= self.side_count {
            None
        } else {
            let i = entry_index(self.side_count, track, side);
            proof {
                assert(i < self.track_count * self.side_count) by (nonlinear_arith)
                    requires
                        i == self.side_count * track + side,
                        track < self.track_count,
                        side < self.side_count,
                ;
            }
            self.tracks[i].as_ref()
        }
    }

    pub fn track_size(&self, track: u8, side: u8) -> (r: Option<u16>)
        requires
            self.wf(),
        ensures
            match self.track_at(track, side) {
                Some(t) => r == Some(t.track_size),
                None => r is None,
            },
    {
        match self.track(track, side) {
            Some(t) => Some(t.track_size),
            None => None,
        }
    }

    /// The data of the `sector_index`-th sector of a track.
    pub fn sector_data(&self, track: u8, side: u8, sector_index: usize) -> (r: Option<&[u8]>)
        requires
            self.wf(),
        ensures
            match self.track_at(track, side) {
                Some(t) => if sector_index < t.sectors.len() {
                    r matches Some(d) && d@ == t.sectors[sector_index as int].data
                } else {
                    r is None
                },
                None => r is None,
            },
    {
        match self.track(track, side) {
            Some(t) => {
                if sector_index < t.sectors.len() {
                    Some(t.sectors[sector_index].data.as_slice())
                } else {
                    None
                }
            },
            None => None,
        }
    }

    /// Index of the first sector of `t` with ID `sector_id`.
    pub fn find_sector(t: &TrackInfo, sector_id: u8) -> (r: Option<usize>)
        ensures
            match r {
                Some(i) => first_with_id(t@.sectors, sector_id, i as int),
                None => no_sector_with_id(t@.sectors, sector_id),
            },
    {
        let mut i: usize = 0;
        while i < t.sectors.len()
            invariant
                i <= t.sectors@.len(),
                forall|j: int| 0 <= j < i ==> (#[trigger] t@.sectors[j]).id != sector_id,
            decreases t.sectors@.len() - i,
        {
            if t.sectors[i].id == sector_id {
                return Some(i);
            }
            i = i + 1;
        }
        None
    }

    /// The data of the first sector with ID `sector_id` on a track.
    pub fn sector_data_by_id(&self, track: u8, side: u8, sector_id: u8) -> (r: Option<&[u8]>)
        requires
            self.wf(),
        ensures
            match self.track_at(track, side) {
                Some(t) => match r {
                    Some(d) => exists|i: int| first_with_id(t.sectors, sector_id, i) && d@ == t.sectors[i].data,
                    None => no_sector_with_id(t.sectors, sector_id),
                },
                None => r is None,
            },
            match r {
                Some(d) => dv_sector_data(self@, track, side, sector_id) == Some(d@),
                None => dv_sector_data(self@, track, side, sector_id) is None,
            },
    {
        match self.track(track, side) {
            Some(t) => match Self::find_sector(t, sector_id) {
                Some(i) => {
                    proof {
                        let j = choose|j: int| first_with_id(t@.sectors, sector_id, j);
                        lemma_first_unique(t@.sectors, sector_id, i as int, j);
                    }
                    Some(t.sectors[i].data.as_slice())
                },
                None => None,
            },
            None => None,
        }
    }

    /// The ID field (C, H, R, N) of the first sector with ID `sector_id`.
    pub fn sector_info_by_id(&self, track: u8, side: u8, sector_id: u8) -> (r: Option<(u8, u8, u8, u8)>)
        requires
            self.wf(),
        ensures
            match self.track_at(track, side) {
                Some(t) => match r {
                    Some(f) => exists|i: int| first_with_id(t.sectors, sector_id, i) && f == id_field(t.sectors[i]),
                    None => no_sector_with_id(t.sectors, sector_id),
                },
                None => r is None,
            },
    {
        match self.track(track, side) {
            Some(t) => match Self::find_sector(t, sector_id) {
                Some(i) => {
                    let s = &t.sectors[i];
                    Some((s.track, s.side, s.id, s.size))
                },
                None => None,
            },
            None => None,
        }
    }

    /// The ID field (C, H, R, N) of the first sector of a track.
    pub fn first_sector_info(&self, track: u8, side: u8) -> (r: Option<(u8, u8, u8, u8)>)
        requires
            self.wf(),
        ensures
            match self.track_at(track, side) {
                Some(t) => if t.sectors.len() > 0 {
                    r == Some(id_field(t.sectors[0]))
                } else {
                    r is None
                },
                None => r is None,
            },
            r == dv_first_info(self@, track, side),
    {
        match self.track(track, side) {
            Some(t) => {
                if t.sectors.len() > 0 {
                    let s = &t.sectors[0];
                    Some((s.track, s.side, s.id, s.size))
                } else {
                    None
                }
            },
            None => None,
        }
    }

    pub fn is_track_formatted(&self, track: u8, side: u8) -> (r: bool)
        requires
            self.wf(),
        ensures
            r == self.track_at(track, side) is Some,
    {
        self.track(track, side).is_some()
    }

    /// Overwrites the start of the first sector with ID `sector_id` with
    /// `data` (as much as fits); false when there is no such sector.
    pub fn write_sector_data(&mut self, track: u8, side: u8, sector_id: u8, data: &[u8]) -> (r: bool)
        requires
            old(self).wf(),
        ensures
            final(self).wf(),
            final(self).format == old(self).format,
            final(self).creator == old(self).creator,
            final(self).track_count == old(self).track_count,
            final(self).side_count == old(self).side_count,
            final(self)@.tracks.len() == old(self)@.tracks.len(),
            match old(self).track_at(track, side) {
                None => !r && final(self)@ == old(self)@,
                Some(t) => if no_sector_with_id(t.sectors, sector_id) {
                    !r && final(self)@ == old(self)@
                } else {
                    r && exists|i: int| {
                        &&& first_with_id(t.sectors, sector_id, i)
                        &&& final(self)@.tracks == old(self)@.tracks.update(
                            old(self).entry(track, side),
                            Some(TrackView {
                                sectors: t.sectors.update(i, SectorView {
                                    data: overwrite(t.sectors[i].data, data@),
                                    ..t.sectors[i]
                                }),
                                ..t
                            }),
                        )
                    }
                },
            },
    {
        if track >= self.track_count || side >= self.side_count {
            return false;
        }
        let idx = entry_index(self.side_count, track, side);
        proof {
            assert(idx < self.track_count * self.side_count) by (nonlinear_arith)
                requires
                    idx == self.side_count * track + side,
                    track < self.track_count,
                    side < self.side_count,
            ;
        }
        let mut slot: Option<TrackInfo> = None;
        self.tracks.set_and_swap(idx, &mut slot);
        let mut found = false;
        let ghost old_views = old(self)@.tracks;
        match slot {
            Some(mut ti) => {
                let ghost t_old = ti@;
                let ghost raw_old = ti.sectors@;
                proof {
                    assert(old(self).tracks@[idx as int] == Some(ti));
                    assert(old(self).track_at(track, side) == Some(t_old));
                }
                match Self::find_sector(&ti, sector_id) {
                    Some(i) => {
                        let mut sector = ti.sectors.remove(i);
                        let ghost s_old = sector@;
                        let len = if data.len() < sector.data.len() { data.len() } else { sector.data.len() };
                        let ghost before = sector.data@;
                        let mut j: usize = 0;
                        while j < len
                            invariant
                                len <= data@.len(),
                                len <= before.len(),
                                j <= len,
                                sector.data@.len() == before.len(),
                                sector@ == (SectorView { data: sector.data@, ..s_old }),
                                forall|x: int| 0 <= x < j ==> #[trigger] sector.data@[x] == data@[x],
                                forall|x: int| j <= x < before.len() ==> #[trigger] sector.data@[x] == before[x],
                            decreases len - j,
                        {
                            sector.data.set(j, data[j]);
                            j = j + 1;
                        }
                        proof {
                            assert(sector.data@ =~= overwrite(before, data@));
                        }
                        ti.sectors.insert(i, sector);
                        let ghost new_sector = SectorView { data: overwrite(t_old.sectors[i as int].data, data@), ..t_old.sectors[i as int] };
                        proof {
                            assert(ti.sectors@ =~= raw_old.update(i as int, sector));
                            assert(s_old == t_old.sectors[i as int]);
                            assert(sector@ == new_sector);
                            assert(ti@.sectors =~= t_old.sectors.update(i as int, new_sector));
                        }
                        found = true;
                        let ghost tv = ti@;
                        let mut back = Some(ti);
                        self.tracks.set_and_swap(idx, &mut back);
                        proof {
                            assert(self@.tracks =~= old(self)@.tracks.update(idx as int, Some(tv)));
                            assert(tv == TrackView { sectors: t_old.sectors.update(i as int, new_sector), ..t_old });
                            assert(first_with_id(t_old.sectors, sector_id, i as int));
                        }
                    },
                    None => {
                        let mut back = Some(ti);
                        self.tracks.set_and_swap(idx, &mut back);
                        proof {
                            assert(self.tracks@ =~= old(self).tracks@);
                            assert(self@.tracks =~= old(self)@.tracks);
                        }
                    },
                }
            },
            None => {
                let mut back: Option<TrackInfo> = None;
                self.tracks.set_and_swap(idx, &mut back);
                proof {
                    assert(self.tracks@ =~= old(self).tracks@);
                    assert(self@.tracks =~= old(self)@.tracks);
                }
            },
        }
        found
    }
}

/// Index of the track entry for `track`, `side` on a disk with `sides` sides.
pub fn entry_index(sides: u8, track: u8, side: u8) -> (r: usize)
    ensures
        r == sides * track + side,
{
    assert(sides * track <= 255 * 255) by (nonlinear_arith)
        requires
            sides <= 255,
            track <= 255,
    ;
    sides as usize * track as usize + side as usize
}

impl Disk {
    /// Formats track `track`, side `side` with the given ID fields: every
    /// sector gets 128 << `n` bytes of `filler`. The entry is stored even
    /// outside the geometry, growing the table with unformatted entries.
    pub fn format_track(
        &mut self,
        track: u8,
        side: u8,
        sectors: &[(u8, u8, u8, u8)],
        n: u8,
        gap3: u8,
        filler: u8,
    )
        requires
            old(self).wf(),
            n < 9,
            256 + (sectors@.len() % 256) * spec_sector_bytes(n as int) <= 65535,
        ensures
            final(self).wf(),
            final(self).format == old(self).format,
            final(self).creator == old(self).creator,
            final(self).track_count == old(self).track_count,
            final(self).side_count == old(self).side_count,
            ({
                let idx = old(self).entry(track, side);
                let old_len = old(self)@.tracks.len();
                let sz = spec_sector_bytes(n as int);
                let count = sectors@.len() % 256;
                &&& final(self)@.tracks.len() == if idx < old_len { old_len as int } else { idx + 1 }
                &&& forall|j: int|
                    0 <= j < final(self)@.tracks.len() && j != idx ==> #[trigger] final(self)@.tracks[j]
                        == if j < old_len { old(self)@.tracks[j] } else { None }
                &&& final(self)@.tracks[idx] == Some(
                    TrackView {
                        track_size: (256 + count * sz) as u16,
                        track_number: track,
                        side_number: side,
                        data_rate: DataRate::SdDd,
                        recording_mode: RecordingMode::Mfm,
                        sector_size: n,
                        sector_count: count as u8,
                        gap3,
                        filler,
                        sectors: sectors@.map_values(|f: (u8, u8, u8, u8)| formatted_sector(f, sz, filler)),
                    },
                )
            }),
    {
        let sz = sector_bytes(n);
        let sec_count = (sectors.len() % 256) as u8;
        let track_size = 256 + sec_count as u16 * sz;
        let mut new_sectors: Vec<SectorInfo> = Vec::new();
        let mut i: usize = 0;
        while i < sectors.len()
            invariant
                i <= sectors@.len(),
                new_sectors@.len() == i,
                sz == spec_sector_bytes(n as int),
                forall|j: int| 0 <= j < i ==> (#[trigger] new_sectors@[j])@ == formatted_sector(sectors@[j], sz as int, filler),
            decreases sectors@.len() - i,
        {
            let (c, h, r, nn) = sectors[i];
            let mut data: Vec<u8> = Vec::new();
            let mut j: u16 = 0;
            while j < sz
                invariant
                    j <= sz,
                    data@ == Seq::new(j as nat, |x: int| filler),
                decreases sz - j,
            {
                data.push(filler);
                j = j + 1;
                proof {
                    assert(data@ =~= Seq::new(j as nat, |x: int| filler));
                }
            }
            new_sectors.push(SectorInfo { track: c, side: h, id: r, size: nn, st1: 0, st2: 0, data_length: sz, data });
            i = i + 1;
        }
        let ti = TrackInfo {
            track_size,
            track_number: track,
            side_number: side,
            data_rate: DataRate::SdDd,
            recording_mode: RecordingMode::Mfm,
            sector_size: n,
            sector_count: sec_count,
            gap3,
            filler,
            sectors: new_sectors,
        };
        proof {
            assert(ti@.sectors =~= sectors@.map_values(|f: (u8, u8, u8, u8)| formatted_sector(f, sz as int, filler)));
        }
        let idx = entry_index(self.side_count, track, side);
        let ghost old_len = self.tracks@.len();
        while self.tracks.len() <= idx
            invariant
                old_len <= self.tracks@.len() <= if idx < old_len { old_len as int } else { idx + 1 },
                forall|j: int| 0 <= j < old_len ==> #[trigger] self.tracks@[j] == old(self).tracks@[j],
                forall|j: int| old_len <= j < self.tracks@.len() ==> #[trigger] self.tracks@[j] is None,
                old_len == old(self).tracks@.len(),
                self.format == old(self).format,
                self.creator == old(self).creator,
                self.track_count == old(self).track_count,
                self.side_count == old(self).side_count,
            decreases idx + 1 - self.tracks@.len(),
        {
            self.tracks.push(None);
        }
        let ghost tv = ti@;
        self.tracks.set(idx, Some(ti));
        proof {
            assert forall|j: int|
                0 <= j < self@.tracks.len() && j != idx implies #[trigger] self@.tracks[j] == if j < old_len {
                    old(self)@.tracks[j]
                } else {
                    None
                } by {
                if j >= old_len {
                    assert(self.tracks@[j] is None);
                }
            }
        }
    }
}

/// `old` with its first bytes replaced by `data` (as many as fit).
pub open spec fn overwrite(old: Seq<u8>, data: Seq<u8>) -> Seq<u8> {
    Seq::new(old.len(), |i: int| if i < data.len() { data[i] } else { old[i] })
}

/// A track/side pair inside the geometry has its entry inside the table.
proof fn lemma_entry_inside(tracks: u8, sides: u8, t: u8, s: u8)
    requires
        t < tracks,
        s < sides,
    ensures
        sides * t + s < tracks * sides,
{
    assert(sides * t + s < tracks * sides) by (nonlinear_arith)
        requires
            t < tracks,
            s < sides,
    ;
}

/// Distinct track/side pairs inside the geometry have distinct entries.
proof fn lemma_entries_distinct(sides: u8, t1: u8, s1: u8, t2: u8, s2: u8)
    requires
        s1 < sides,
        s2 < sides,
        t1 != t2 || s1 != s2,
    ensures
        sides * t1 + s1 != sides * t2 + s2,
{
    if t1 < t2 {
        assert(sides * t1 + s1 < sides * t2 + s2) by (nonlinear_arith)
            requires
                t1 < t2,
                s1 < sides,
        ;
    } else if t2 < t1 {
        assert(sides * t2 + s2 < sides * t1 + s1) by (nonlinear_arith)
            requires
                t2 < t1,
                s2 < sides,
        ;
    }
}

/// Writing a sector and reading it back: the first sector with the ID now
/// holds the written bytes over its start (as many as fit, its length
/// unchanged), and every other sector ID and every other track read as
/// before.
pub proof fn law_write_then_read_sector(
    d: DiskView,
    new: DiskView,
    track: u8,
    side: u8,
    id: u8,
    data: Seq<u8>,
    i: int,
    other_id: u8,
    other_track: u8,
    other_side: u8,
)
    requires
        dv_wf(d),
        dv_track_at(d, track, side) matches Some(t) && first_with_id(t.sectors, id, i) && new == (
        DiskView {
            tracks: d.tracks.update(
                d.side_count * track + side,
                Some(
                    TrackView {
                        sectors: t.sectors.update(
                            i,
                            SectorView { data: overwrite(t.sectors[i].data, data), ..t.sectors[i] },
                        ),
                        ..t
                    },
                ),
            ),
            ..d
        }),
    ensures
        dv_sector_data(new, track, side, id) == Some(overwrite(dv_track_at(d, track, side)->Some_0.sectors[i].data, data)),
        other_id != id ==> dv_sector_data(new, track, side, other_id) == dv_sector_data(d, track, side, other_id),
        other_track != track || other_side != side ==> dv_track_at(new, other_track, other_side)
            == dv_track_at(d, other_track, other_side),
{
    let t = dv_track_at(d, track, side)->Some_0;
    lemma_entry_inside(d.track_count, d.side_count, track, side);
    let nt = dv_track_at(new, track, side)->Some_0;
    assert(nt.sectors.len() == t.sectors.len());
    assert(first_with_id(nt.sectors, id, i));
    let j = choose|j: int| first_with_id(nt.sectors, id, j);
    lemma_first_unique(nt.sectors, id, i, j);
    if other_id != id {
        assert forall|k: int| 0 <= k < t.sectors.len() implies #[trigger] nt.sectors[k].id == t.sectors[k].id by {}
        if exists|k: int| first_with_id(t.sectors, other_id, k) {
            let k = choose|k: int| first_with_id(t.sectors, other_id, k);
            assert(first_with_id(nt.sectors, other_id, k));
            let k2 = choose|k2: int| first_with_id(nt.sectors, other_id, k2);
            lemma_first_unique(nt.sectors, other_id, k, k2);
            assert(k != i);
        } else {
            if exists|k: int| first_with_id(nt.sectors, other_id, k) {
                let k = choose|k: int| first_with_id(nt.sectors, other_id, k);
                assert forall|j: int| 0 <= j < k implies (#[trigger] t.sectors[j]).id != other_id by {
                    assert(nt.sectors[j].id == t.sectors[j].id);
                }
                assert(first_with_id(t.sectors, other_id, k));
            }
        }
    }
    if (other_track != track || other_side != side) && other_track < d.track_count && other_side
        < d.side_count {
        lemma_entries_distinct(d.side_count, track, side, other_track, other_side);
        lemma_entry_inside(d.track_count, d.side_count, other_track, other_side);
    }
}

/// Formatting a track inside the geometry makes it formatted, with the
/// given sectors in order, each filled with `filler`; reading the first
/// sector with a given ID gives `filler` bytes of the size code `n`.
pub proof fn law_format_then_read(
    d: DiskView,
    new: DiskView,
    track: u8,
    side: u8,
    sectors: Seq<(u8, u8, u8, u8)>,
    n: u8,
    gap3: u8,
    filler: u8,
    k: int,
)
    requires
        dv_wf(d),
        n < 9,
        track < d.track_count,
        side < d.side_count,
        new.track_count == d.track_count,
        new.side_count == d.side_count,
        new.tracks.len() >= d.tracks.len(),
        new.tracks[d.side_count * track + side] == Some(
            TrackView {
                track_size: (256 + (sectors.len() % 256) * spec_sector_bytes(n as int)) as u16,
                track_number: track,
                side_number: side,
                data_rate: DataRate::SdDd,
                recording_mode: RecordingMode::Mfm,
                sector_size: n,
                sector_count: (sectors.len() % 256) as u8,
                gap3,
                filler,
                sectors: sectors.map_values(
                    |f: (u8, u8, u8, u8)| formatted_sector(f, spec_sector_bytes(n as int), filler),
                ),
            },
        ),
        0 <= k < sectors.len(),
        forall|j: int| 0 <= j < k ==> (#[trigger] sectors[j]).2 != sectors[k].2,
    ensures
        dv_track_at(new, track, side) is Some,
        dv_sector_data(new, track, side, sectors[k].2) == Some(
            Seq::new(spec_sector_bytes(n as int) as nat, |i: int| filler),
        ),
{
    lemma_entry_inside(d.track_count, d.side_count, track, side);
    let nt = dv_track_at(new, track, side)->Some_0;
    let id = sectors[k].2;
    assert(first_with_id(nt.sectors, id, k));
    let j = choose|j: int| first_with_id(nt.sectors, id, j);
    lemma_first_unique(nt.sectors, id, k, j);
}

/// The size of every track block of a standard image (header bytes
/// &32-&33, little endian).
pub open spec fn standard_track_size(data: Seq<u8>) -> int {
    data[TRACK_SIZE as int] + 256 * data[TRACK_SIZE + 1]
}

/// In a standard image the track entries from `k` on are read from blocks
/// of one common size, one after the other from `offset`.
proof fn lemma_standard_tracks(data: Seq<u8>, total: int, k: int, offset: int, ts: Seq<Option<TrackView>>)
    requires
        0 <= k <= total,
        spec_tracks(data, Format::Standard, total, k, offset) == ParseOutcome::Parsed(ts),
    ensures
        ts.len() == total - k,
        forall|j: int|
            0 <= j < ts.len() ==> #[trigger] spec_track(
                data,
                Format::Standard,
                k + j,
                offset + j * standard_track_size(data),
            ) == ParseOutcome::Parsed((ts[j], offset + (j + 1) * standard_track_size(data))),
    decreases total - k,
{
    let size = standard_track_size(data);
    if k < total {
        let first = spec_track(data, Format::Standard, k, offset);
        assert(spec_track_size(data, Format::Standard, k) == size);
        let t = first->Parsed_0.0;
        let next = first->Parsed_0.1;
        assert(next == offset + size);
        let rest = spec_tracks(data, Format::Standard, total, k + 1, next)->Parsed_0;
        lemma_standard_tracks(data, total, k + 1, next, rest);
        assert(ts == seq![t] + rest);
        assert forall|j: int| 0 <= j < ts.len() implies #[trigger] spec_track(
            data,
            Format::Standard,
            k + j,
            offset + j * size,
        ) == ParseOutcome::Parsed((ts[j], offset + (j + 1) * size)) by {
            assert(j * size + size == (j + 1) * size) by (nonlinear_arith);
            if j == 0 {
                assert(0 * size == 0) by (nonlinear_arith);
                assert(1 * size == size) by (nonlinear_arith);
            } else {
                let i = j - 1;
                assert(ts[j] == rest[i]);
                assert(spec_track(data, Format::Standard, k + 1 + i, next + i * size)
                    == ParseOutcome::Parsed((rest[i], next + (i + 1) * size)));
                assert(next + i * size == offset + j * size) by (nonlinear_arith)
                    requires
                        next == offset + size,
                        i == j - 1,
                ;
                assert(next + (i + 1) * size == offset + (j + 1) * size) by (nonlinear_arith)
                    requires
                        next == offset + size,
                        i == j - 1,
                ;
            }
        }
    }
}

/// Track order of a standard image: the T x S track blocks follow the
/// 256-byte disk header in the order track 0 side 0, track 0 side 1,
/// track 1 side 0, ..., all of the common track size L; the track at
/// `track`, `side` is the one read from block S * track + side, at offset
/// 256 + (S * track + side) * L.
pub proof fn law_standard_track_order(data: Seq<u8>, track: u8, side: u8)
    requires
        spec_parse_disk(data) is Parsed,
        spec_has_prefix(data, standard_header()),
        track < spec_parse_disk(data)->Parsed_0.track_count,
        side < spec_parse_disk(data)->Parsed_0.side_count,
    ensures
        ({
            let d = spec_parse_disk(data)->Parsed_0;
            let k = d.side_count * track + side;
            let size = standard_track_size(data);
            &&& d.format == Format::Standard
            &&& d.tracks.len() == d.track_count * d.side_count
            &&& spec_track(data, Format::Standard, k, 0x100 + k * size) == ParseOutcome::Parsed(
                (dv_track_at(d, track, side), 0x100 + (k + 1) * size),
            )
        }),
{
    let d = spec_parse_disk(data)->Parsed_0;
    let total = d.track_count * d.side_count;
    lemma_standard_tracks(data, total, 0, 0x100, d.tracks);
    let k = d.side_count * track + side;
    assert(k < total) by (nonlinear_arith)
        requires
            k == d.side_count * track + side,
            track < d.track_count,
            side < d.side_count,
            total == d.track_count * d.side_count,
    ;
    assert(spec_track(
        data,
        Format::Standard,
        0 + k,
        0x100 + k * standard_track_size(data),
    ) == ParseOutcome::Parsed((d.tracks[k], 0x100 + (k + 1) * standard_track_size(data))));
}

} // verus!
