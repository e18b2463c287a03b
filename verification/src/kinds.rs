use vstd::prelude::*;

verus! {

/// Shape of the gain curve between two envelope nodes.
#[derive(Clone, Copy, Debug, PartialEq, Eq, Structural)]
pub enum EnvelopeCurve {
    Linear,
    CurveUp,
    CurveDown,
    Sine,
}

impl Default for EnvelopeCurve {
    fn default() -> (c: Self)
        ensures
            c == EnvelopeCurve::Linear,
    {
        EnvelopeCurve::Linear
    }
}

/// Equaliser band filter shapes.
#[derive(Clone, Copy, Debug, PartialEq, Eq, Structural)]
pub enum FilterType {
    LowShelf,
    Peaking,
    HighShelf,
}

/// Character of a compressor stage.
#[derive(Clone, Copy, Debug, PartialEq, Eq, Structural)]
pub enum CompType {
    Vintage,
    Modern,
    FET,
    Opto,
}

/// How the two compressor stages are combined.
#[derive(Clone, Copy, Debug, PartialEq, Eq, Structural)]
pub enum CompRouting {
    Series,
    Parallel,
}

/// Sample encoding of an exported WAV file.
#[derive(Clone, Copy, Debug, PartialEq, Eq, Structural)]
pub enum ExportBitDepth {
    Int16,
    Int24,
    Float32,
}

} // verus!
