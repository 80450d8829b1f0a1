//! Enumerations of the Colour element's coded values, as the Matroska
//! schema defines them.

use vstd::prelude::*;

verus! {

/// Matrix coefficients of the video's colour space.
#[derive(Debug, Clone, Copy, PartialEq, Eq, Structural)]
pub enum MatrixCoefficients {
    kGbr,
    kBt709,
    kUnspecifiedMc,
    kReserved,
    kFcc,
    kBt470bg,
    kSmpte170MMc,
    kSmpte240MMc,
    kYcocg,
    kBt2020NonConstantLuminance,
    kBt2020ConstantLuminance,
}

impl MatrixCoefficients {
    /// The variant a coded value stands for, if any.
    pub fn from_u64(value: u64) -> (r: Option<MatrixCoefficients>)
        ensures
            r == match value {
                0u64 => Some(MatrixCoefficients::kGbr),
                1u64 => Some(MatrixCoefficients::kBt709),
                2u64 => Some(MatrixCoefficients::kUnspecifiedMc),
                3u64 => Some(MatrixCoefficients::kReserved),
                4u64 => Some(MatrixCoefficients::kFcc),
                5u64 => Some(MatrixCoefficients::kBt470bg),
                6u64 => Some(MatrixCoefficients::kSmpte170MMc),
                7u64 => Some(MatrixCoefficients::kSmpte240MMc),
                8u64 => Some(MatrixCoefficients::kYcocg),
                9u64 => Some(MatrixCoefficients::kBt2020NonConstantLuminance),
                10u64 => Some(MatrixCoefficients::kBt2020ConstantLuminance),
                _ => None,
            },
    {
        match value {
            0 => Some(MatrixCoefficients::kGbr),
            1 => Some(MatrixCoefficients::kBt709),
            2 => Some(MatrixCoefficients::kUnspecifiedMc),
            3 => Some(MatrixCoefficients::kReserved),
            4 => Some(MatrixCoefficients::kFcc),
            5 => Some(MatrixCoefficients::kBt470bg),
            6 => Some(MatrixCoefficients::kSmpte170MMc),
            7 => Some(MatrixCoefficients::kSmpte240MMc),
            8 => Some(MatrixCoefficients::kYcocg),
            9 => Some(MatrixCoefficients::kBt2020NonConstantLuminance),
            10 => Some(MatrixCoefficients::kBt2020ConstantLuminance),
            _ => None,
        }
    }
}

/// Horizontal chroma siting.
#[derive(Debug, Clone, Copy, PartialEq, Eq, Structural)]
pub enum ChromaSitingHorz {
    kUnspecifiedCsh,
    kLeftCollocated,
    kHalfCsh,
}

impl ChromaSitingHorz {
    /// The variant a coded value stands for, if any.
    pub fn from_u64(value: u64) -> (r: Option<ChromaSitingHorz>)
        ensures
            r == match value {
                0u64 => Some(ChromaSitingHorz::kUnspecifiedCsh),
                1u64 => Some(ChromaSitingHorz::kLeftCollocated),
                2u64 => Some(ChromaSitingHorz::kHalfCsh),
                _ => None,
            },
    {
        match value {
            0 => Some(ChromaSitingHorz::kUnspecifiedCsh),
            1 => Some(ChromaSitingHorz::kLeftCollocated),
            2 => Some(ChromaSitingHorz::kHalfCsh),
            _ => None,
        }
    }
}

/// Vertical chroma siting.
#[derive(Debug, Clone, Copy, PartialEq, Eq, Structural)]
pub enum ChromaSitingVert {
    kUnspecifiedCsv,
    kTopCollocated,
    kHalfCsv,
}

impl ChromaSitingVert {
    /// The variant a coded value stands for, if any.
    pub fn from_u64(value: u64) -> (r: Option<ChromaSitingVert>)
        ensures
            r == match value {
                0u64 => Some(ChromaSitingVert::kUnspecifiedCsv),
                1u64 => Some(ChromaSitingVert::kTopCollocated),
                2u64 => Some(ChromaSitingVert::kHalfCsv),
                _ => None,
            },
    {
        match value {
            0 => Some(ChromaSitingVert::kUnspecifiedCsv),
            1 => Some(ChromaSitingVert::kTopCollocated),
            2 => Some(ChromaSitingVert::kHalfCsv),
            _ => None,
        }
    }
}

/// The video's colour range.
#[derive(Debug, Clone, Copy, PartialEq, Eq, Structural)]
pub enum Range {
    kUnspecifiedCr,
    kBroadcastRange,
    kFullRange,
    /// Defined by MatrixCoefficients/TransferCharacteristics.
    kMcTcDefined,
}

impl Range {
    /// The variant a coded value stands for, if any.
    pub fn from_u64(value: u64) -> (r: Option<Range>)
        ensures
            r == match value {
                0u64 => Some(Range::kUnspecifiedCr),
                1u64 => Some(Range::kBroadcastRange),
                2u64 => Some(Range::kFullRange),
                3u64 => Some(Range::kMcTcDefined),
                _ => None,
            },
    {
        match value {
            0 => Some(Range::kUnspecifiedCr),
            1 => Some(Range::kBroadcastRange),
            2 => Some(Range::kFullRange),
            3 => Some(Range::kMcTcDefined),
            _ => None,
        }
    }
}

/// The video's transfer characteristics.
#[derive(Debug, Clone, Copy, PartialEq, Eq, Structural)]
pub enum TransferCharacteristics {
    kIturBt709Tc,
    kUnspecifiedTc,
    kReservedTc,
    kGamma22Curve,
    kGamma28Curve,
    kSmpte170MTc,
    kSmpte240MTc,
    kLinear,
    kLog,
    kLogSqrt,
    kIec6196624,
    kIturBt1361ExtendedColourGamut,
    kIec6196621,
    kIturBt202010bit,
    kIturBt202012bit,
    kSmpteSt2084,
    kSmpteSt4281Tc,
    kAribStdB67Hlg,
}

impl TransferCharacteristics {
    /// The variant a coded value stands for, if any. The schema starts
    /// this enumeration at 1.
    pub fn from_u64(value: u64) -> (r: Option<TransferCharacteristics>)
        ensures
            r == match value {
                1u64 => Some(TransferCharacteristics::kIturBt709Tc),
                2u64 => Some(TransferCharacteristics::kUnspecifiedTc),
                3u64 => Some(TransferCharacteristics::kReservedTc),
                4u64 => Some(TransferCharacteristics::kGamma22Curve),
                5u64 => Some(TransferCharacteristics::kGamma28Curve),
                6u64 => Some(TransferCharacteristics::kSmpte170MTc),
                7u64 => Some(TransferCharacteristics::kSmpte240MTc),
                8u64 => Some(TransferCharacteristics::kLinear),
                9u64 => Some(TransferCharacteristics::kLog),
                10u64 => Some(TransferCharacteristics::kLogSqrt),
                11u64 => Some(TransferCharacteristics::kIec6196624),
                12u64 => Some(TransferCharacteristics::kIturBt1361ExtendedColourGamut),
                13u64 => Some(TransferCharacteristics::kIec6196621),
                14u64 => Some(TransferCharacteristics::kIturBt202010bit),
                15u64 => Some(TransferCharacteristics::kIturBt202012bit),
                16u64 => Some(TransferCharacteristics::kSmpteSt2084),
                17u64 => Some(TransferCharacteristics::kSmpteSt4281Tc),
                18u64 => Some(TransferCharacteristics::kAribStdB67Hlg),
                _ => None,
            },
    {
        match value {
            1 => Some(TransferCharacteristics::kIturBt709Tc),
            2 => Some(TransferCharacteristics::kUnspecifiedTc),
            3 => Some(TransferCharacteristics::kReservedTc),
            4 => Some(TransferCharacteristics::kGamma22Curve),
            5 => Some(TransferCharacteristics::kGamma28Curve),
            6 => Some(TransferCharacteristics::kSmpte170MTc),
            7 => Some(TransferCharacteristics::kSmpte240MTc),
            8 => Some(TransferCharacteristics::kLinear),
            9 => Some(TransferCharacteristics::kLog),
            10 => Some(TransferCharacteristics::kLogSqrt),
            11 => Some(TransferCharacteristics::kIec6196624),
            12 => Some(TransferCharacteristics::kIturBt1361ExtendedColourGamut),
            13 => Some(TransferCharacteristics::kIec6196621),
            14 => Some(TransferCharacteristics::kIturBt202010bit),
            15 => Some(TransferCharacteristics::kIturBt202012bit),
            16 => Some(TransferCharacteristics::kSmpteSt2084),
            17 => Some(TransferCharacteristics::kSmpteSt4281Tc),
            18 => Some(TransferCharacteristics::kAribStdB67Hlg),
            _ => None,
        }
    }
}

/// The video's colour primaries.
#[derive(Debug, Clone, Copy, PartialEq, Eq, Structural)]
pub enum Primaries {
    kReservedP0,
    kIturBt709P,
    kUnspecifiedP,
    kReservedP3,
    kIturBt470M,
    kIturBt470Bg,
    kSmpte170MP,
    kSmpte240MP,
    kFilm,
    kIturBt2020,
    kSmpteSt4281P,
    kJedecP22Phosphors,
}

impl Primaries {
    /// The variant a coded value stands for, if any.
    pub fn from_u64(value: u64) -> (r: Option<Primaries>)
        ensures
            r == match value {
                0u64 => Some(Primaries::kReservedP0),
                1u64 => Some(Primaries::kIturBt709P),
                2u64 => Some(Primaries::kUnspecifiedP),
                3u64 => Some(Primaries::kReservedP3),
                4u64 => Some(Primaries::kIturBt470M),
                5u64 => Some(Primaries::kIturBt470Bg),
                6u64 => Some(Primaries::kSmpte170MP),
                7u64 => Some(Primaries::kSmpte240MP),
                8u64 => Some(Primaries::kFilm),
                9u64 => Some(Primaries::kIturBt2020),
                10u64 => Some(Primaries::kSmpteSt4281P),
                22u64 => Some(Primaries::kJedecP22Phosphors),
                _ => None,
            },
    {
        match value {
            0 => Some(Primaries::kReservedP0),
            1 => Some(Primaries::kIturBt709P),
            2 => Some(Primaries::kUnspecifiedP),
            3 => Some(Primaries::kReservedP3),
            4 => Some(Primaries::kIturBt470M),
            5 => Some(Primaries::kIturBt470Bg),
            6 => Some(Primaries::kSmpte170MP),
            7 => Some(Primaries::kSmpte240MP),
            8 => Some(Primaries::kFilm),
            9 => Some(Primaries::kIturBt2020),
            10 => Some(Primaries::kSmpteSt4281P),
            22 => Some(Primaries::kJedecP22Phosphors),
            _ => None,
        }
    }
}

} // verus!
