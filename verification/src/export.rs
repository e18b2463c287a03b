use vstd::prelude::*;
use crate::kinds::ExportBitDepth;
use crate::text::{chars_of, equals_literal, lowercase, to_lowercase};

verus! {

/// The bit depth an export request names; names are compared in lower
/// case and unknown names give 24-bit.
pub open spec fn bit_depth_of(name: Seq<char>) -> ExportBitDepth {
    let l = lowercase(name);
    if l == "int16"@ || l == "16"@ {
        ExportBitDepth::Int16
    } else if l == "int24"@ || l == "24"@ {
        ExportBitDepth::Int24
    } else if l == "float32"@ || l == "32"@ {
        ExportBitDepth::Float32
    } else {
        ExportBitDepth::Int24
    }
}

/// Reads the bit depth named in an export request.
pub fn bit_depth_from_name(name: &str) -> (d: ExportBitDepth)
    ensures
        d == bit_depth_of(name@),
{
    let low = to_lowercase(name);
    let l = chars_of(low.as_str());
    let s = l.as_slice();
    if equals_literal(s, "int16") || equals_literal(s, "16") {
        ExportBitDepth::Int16
    } else if equals_literal(s, "int24") || equals_literal(s, "24") {
        ExportBitDepth::Int24
    } else if equals_literal(s, "float32") || equals_literal(s, "32") {
        ExportBitDepth::Float32
    } else {
        ExportBitDepth::Int24
    }
}

/// How the samples of a WAV file are stored.
#[derive(Clone, Copy, Debug, PartialEq, Eq, Structural)]
pub enum WavSampleFormat {
    Int,
    Float,
}

/// The bits per sample and the sample format of a WAV file written at `d`.
pub open spec fn wav_layout(d: ExportBitDepth) -> (u16, WavSampleFormat) {
    match d {
        ExportBitDepth::Int16 => (16, WavSampleFormat::Int),
        ExportBitDepth::Int24 => (24, WavSampleFormat::Int),
        ExportBitDepth::Float32 => (32, WavSampleFormat::Float),
    }
}

/// The bits per sample and the sample format of a WAV file written at `d`.
pub fn wav_format(d: ExportBitDepth) -> (r: (u16, WavSampleFormat))
    ensures
        r == wav_layout(d),
{
    match d {
        ExportBitDepth::Int16 => (16, WavSampleFormat::Int),
        ExportBitDepth::Int24 => (24, WavSampleFormat::Int),
        ExportBitDepth::Float32 => (32, WavSampleFormat::Float),
    }
}

/// Why an export produced nothing.
#[derive(Clone, Copy, Debug, PartialEq, Eq, Structural)]
pub enum ExportError {
    /// The source track has no samples.
    EmptySource,
    /// The requested range is empty.
    EmptyRange,
    /// Every frame of the range lies in a cut region.
    AllCut,
}

impl ExportError {
    /// The text shown to the user.
    pub open spec fn text(self) -> Seq<char> {
        match self {
            ExportError::EmptySource => "Audio track contains no samples to export"@,
            ExportError::EmptyRange => "Invalid export range: start frame is greater than or equal to end frame"@,
            ExportError::AllCut => "No audio frames remained after applying cut regions"@,
        }
    }

    /// The text shown to the user.
    pub fn message(&self) -> (s: String)
        ensures
            s@ == self.text(),
    {
        match self {
            ExportError::EmptySource => String::from_str("Audio track contains no samples to export"),
            ExportError::EmptyRange => String::from_str(
                "Invalid export range: start frame is greater than or equal to end frame",
            ),
            ExportError::AllCut => String::from_str("No audio frames remained after applying cut regions"),
        }
    }
}

/// The frames `[start, end)` an export covers: the requested bounds, or the
/// whole track where none is given, both clipped to the track.
pub open spec fn export_range(total: nat, start: Option<usize>, end: Option<usize>) -> Result<(nat, nat), ExportError> {
    let s = match start { Some(s) => if s < total { s as nat } else { total }, None => 0 };
    let e = match end { Some(e) => if e < total { e as nat } else { total }, None => total };
    if total == 0 {
        Err(ExportError::EmptySource)
    } else if s >= e {
        Err(ExportError::EmptyRange)
    } else {
        Ok((s, e))
    }
}

/// Works out the frames an export covers, from the requested first and
/// last frames (already converted from seconds).
pub fn export_frame_range(total: usize, start: Option<usize>, end: Option<usize>) -> (r: Result<(usize, usize), ExportError>)
    ensures
        match (r, export_range(total as nat, start, end)) {
            (Ok((a, b)), Ok((x, y))) => a == x && b == y,
            (Err(a), Err(b)) => a == b,
            _ => false,
        },
{
    if total == 0 {
        return Err(ExportError::EmptySource);
    }
    let s = match start {
        Some(s) => if s < total { s } else { total },
        None => 0,
    };
    let e = match end {
        Some(e) => if e < total { e } else { total },
        None => total,
    };
    if s >= e {
        Err(ExportError::EmptyRange)
    } else {
        Ok((s, e))
    }
}

/// An export range is never empty and never leaves the track.
pub proof fn law_export_range_inside(total: nat, start: Option<usize>, end: Option<usize>)
    ensures
        export_range(total, start, end) matches Ok((s, e)) ==> s < e <= total,
        total > 0 && start is None && end is None ==> export_range(total, start, end) == Ok::<(nat, nat), ExportError>((0, total)),
{
}

/// An export covers exactly what was asked for, clipped to the track: its
/// first frame is the requested start (frame 0 when none is given) and its
/// end the requested end (the track's end when none is given), each cut
/// down to the track's length.  A request inside the track is honoured as
/// it stands, and a track without frames is never exported.
pub proof fn law_export_range_as_requested(total: nat, start: Option<usize>, end: Option<usize>)
    ensures
        export_range(total, start, end) matches Ok((s, e)) ==> {
            &&& (start matches Some(a) ==> s == (if a < total { a as nat } else { total }))
            &&& (start is None ==> s == 0)
            &&& (end matches Some(b) ==> e == (if b < total { b as nat } else { total }))
            &&& (end is None ==> e == total)
        },
        start matches Some(a) && end matches Some(b) && a < b && b <= total
            ==> export_range(total, start, end) == Ok::<(nat, nat), ExportError>((start->0 as nat, end->0 as nat)),
        total == 0 ==> export_range(total, start, end) == Err::<(nat, nat), ExportError>(ExportError::EmptySource),
        total > 0 ==> (export_range(total, start, end) is Ok <==> ({
            let s = match start { Some(a) => if a < total { a as nat } else { total }, None => 0 };
            let e = match end { Some(b) => if b < total { b as nat } else { total }, None => total };
            s < e
        })),
        total > 0 && export_range(total, start, end) is Err
            ==> export_range(total, start, end) == Err::<(nat, nat), ExportError>(ExportError::EmptyRange),
{
}

} // verus!
