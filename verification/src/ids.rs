//! Numeric EBML element ids from the Matroska/WebM schema.
//!
//! The values are bit-exact wire-format constants; any deviation breaks
//! conformance with existing decoders.

use vstd::prelude::*;

verus! {

// EBML header.
pub const MkvEBML: u64 = 0x1A45DFA3;
pub const MkvEBMLVersion: u64 = 0x4286;
pub const MkvEBMLReadVersion: u64 = 0x42F7;
pub const MkvEBMLMaxIDLength: u64 = 0x42F2;
pub const MkvEBMLMaxSizeLength: u64 = 0x42F3;
pub const MkvDocType: u64 = 0x4282;
pub const MkvDocTypeVersion: u64 = 0x4287;
pub const MkvDocTypeReadVersion: u64 = 0x4285;
pub const MkvVoid: u64 = 0xEC;

// Segment and seeking.
pub const MkvSegment: u64 = 0x18538067;
pub const MkvSeekHead: u64 = 0x114D9B74;
pub const MkvSeek: u64 = 0x4DBB;
pub const MkvSeekID: u64 = 0x53AB;
pub const MkvSeekPosition: u64 = 0x53AC;

// Segment information.
pub const MkvInfo: u64 = 0x1549A966;
pub const MkvTimecodeScale: u64 = 0x2AD7B1;
pub const MkvDuration: u64 = 0x4489;
pub const MkvDateUTC: u64 = 0x4461;
pub const MkvMuxingApp: u64 = 0x4D80;
pub const MkvWritingApp: u64 = 0x5741;

// Cluster.
pub const MkvCluster: u64 = 0x1F43B675;
pub const MkvTimecode: u64 = 0xE7;
pub const MkvSimpleBlock: u64 = 0xA3;
pub const MkvBlockGroup: u64 = 0xA0;
pub const MkvBlock: u64 = 0xA1;
pub const MkvBlockDuration: u64 = 0x9B;
pub const MkvReferenceBlock: u64 = 0xFB;
pub const MkvDiscardPadding: u64 = 0x75A2;
pub const MkvBlockAdditions: u64 = 0x75A1;
pub const MkvBlockMore: u64 = 0xA6;
pub const MkvBlockAddID: u64 = 0xEE;
pub const MkvBlockAdditional: u64 = 0xA5;

// Audio settings.
pub const MkvAudio: u64 = 0xE1;
pub const MkvSamplingFrequency: u64 = 0xB5;
pub const MkvChannels: u64 = 0x9F;
pub const MkvBitDepth: u64 = 0x6264;

// Tracks.
pub const MkvTracks: u64 = 0x1654AE6B;
pub const MkvTrackEntry: u64 = 0xAE;
pub const MkvTrackNumber: u64 = 0xD7;
pub const MkvTrackUID: u64 = 0x73C5;
pub const MkvTrackType: u64 = 0x83;
pub const MkvCodecID: u64 = 0x86;
pub const MkvCodecPrivate: u64 = 0x63A2;
pub const MkvLanguage: u64 = 0x22B59C;
pub const MkvName: u64 = 0x536E;
pub const MkvMaxBlockAdditionID: u64 = 0x55EE;
pub const MkvCodecDelay: u64 = 0x56AA;
pub const MkvSeekPreRoll: u64 = 0x56BB;
pub const MkvDefaultDuration: u64 = 0x23E383;

// Video settings.
pub const MkvVideo: u64 = 0xE0;
pub const MkvPixelWidth: u64 = 0xB0;
pub const MkvPixelHeight: u64 = 0xBA;
pub const MkvDisplayWidth: u64 = 0x54B0;
pub const MkvDisplayHeight: u64 = 0x54BA;
pub const MkvPixelCropLeft: u64 = 0x54CC;
pub const MkvPixelCropRight: u64 = 0x54DD;
pub const MkvPixelCropTop: u64 = 0x54BB;
pub const MkvPixelCropBottom: u64 = 0x54AA;
pub const MkvStereoMode: u64 = 0x53B8;
pub const MkvAlphaMode: u64 = 0x53C0;
pub const MkvFrameRate: u64 = 0x2383E3;
pub const MkvColourSpace: u64 = 0x2EB524;

// Colour.
pub const MkvColour: u64 = 0x55B0;
pub const MkvMatrixCoefficients: u64 = 0x55B1;
pub const MkvBitsPerChannel: u64 = 0x55B2;
pub const MkvChromaSubsamplingHorz: u64 = 0x55B3;
pub const MkvChromaSubsamplingVert: u64 = 0x55B4;
pub const MkvCbSubsamplingHorz: u64 = 0x55B5;
pub const MkvCbSubsamplingVert: u64 = 0x55B6;
pub const MkvChromaSitingHorz: u64 = 0x55B7;
pub const MkvChromaSitingVert: u64 = 0x55B8;
pub const MkvRange: u64 = 0x55B9;
pub const MkvTransferCharacteristics: u64 = 0x55BA;
pub const MkvPrimaries: u64 = 0x55BB;
pub const MkvMaxCLL: u64 = 0x55BC;
pub const MkvMaxFALL: u64 = 0x55BD;
pub const MkvMasteringMetadata: u64 = 0x55D0;
pub const MkvPrimaryRChromaticityX: u64 = 0x55D1;
pub const MkvPrimaryRChromaticityY: u64 = 0x55D2;
pub const MkvPrimaryGChromaticityX: u64 = 0x55D3;
pub const MkvPrimaryGChromaticityY: u64 = 0x55D4;
pub const MkvPrimaryBChromaticityX: u64 = 0x55D5;
pub const MkvPrimaryBChromaticityY: u64 = 0x55D6;
pub const MkvWhitePointChromaticityX: u64 = 0x55D7;
pub const MkvWhitePointChromaticityY: u64 = 0x55D8;
pub const MkvLuminanceMax: u64 = 0x55D9;
pub const MkvLuminanceMin: u64 = 0x55DA;

// Projection.
pub const MkvProjection: u64 = 0x7670;
pub const MkvProjectionType: u64 = 0x7671;
pub const MkvProjectionPrivate: u64 = 0x7672;
pub const MkvProjectionPoseYaw: u64 = 0x7673;
pub const MkvProjectionPosePitch: u64 = 0x7674;
pub const MkvProjectionPoseRoll: u64 = 0x7675;

// Content encoding.
pub const MkvContentEncodings: u64 = 0x6D80;
pub const MkvContentEncoding: u64 = 0x6240;
pub const MkvContentEncodingOrder: u64 = 0x5031;
pub const MkvContentEncodingScope: u64 = 0x5032;
pub const MkvContentEncodingType: u64 = 0x5033;
pub const MkvContentEncryption: u64 = 0x5035;
pub const MkvContentEncAlgo: u64 = 0x47E1;
pub const MkvContentEncKeyID: u64 = 0x47E2;
pub const MkvContentEncAESSettings: u64 = 0x47E7;
pub const MkvAESSettingsCipherMode: u64 = 0x47E8;

// Cues.
pub const MkvCues: u64 = 0x1C53BB6B;
pub const MkvCuePoint: u64 = 0xBB;
pub const MkvCueTime: u64 = 0xB3;
pub const MkvCueTrackPositions: u64 = 0xB7;
pub const MkvCueTrack: u64 = 0xF7;
pub const MkvCueClusterPosition: u64 = 0xF1;
pub const MkvCueBlockNumber: u64 = 0x5378;

// Chapters.
pub const MkvChapters: u64 = 0x1043A770;
pub const MkvEditionEntry: u64 = 0x45B9;
pub const MkvChapterAtom: u64 = 0xB6;
pub const MkvChapterUID: u64 = 0x73C4;
pub const MkvChapterStringUID: u64 = 0x5654;
pub const MkvChapterTimeStart: u64 = 0x91;
pub const MkvChapterTimeEnd: u64 = 0x92;
pub const MkvChapterDisplay: u64 = 0x80;
pub const MkvChapString: u64 = 0x85;
pub const MkvChapLanguage: u64 = 0x437C;
pub const MkvChapCountry: u64 = 0x437E;

// Tags.
pub const MkvTags: u64 = 0x1254C367;
pub const MkvTag: u64 = 0x7373;
pub const MkvSimpleTag: u64 = 0x67C8;
pub const MkvTagName: u64 = 0x45A3;
pub const MkvTagString: u64 = 0x4487;

} // verus!
