//! Loading: from the content of a WAVE file to an asset, through hound's
//! decoder.

use vstd::prelude::*;
use crate::asset::{AssetView, AudioAsset};

verus! {

/// What the engine reads of a WAVE header.
#[derive(Clone, Copy, Debug, PartialEq, Eq, Structural)]
pub struct WavHeader {
    /// The number of frames per second.
    pub sample_rate: u32,
    /// The number of channels that the samples interleave.
    pub channel_count: u16,
    /// The width of one sample.
    pub bits_per_sample: u16,
}

/// Why no asset could be loaded.
#[derive(Clone, Copy, Debug, PartialEq, Eq, Structural)]
pub enum LoadError {
    /// The file could not be read.
    Unreadable,
    /// The file's content could not be decoded as PCM WAVE data.
    Undecodable,
    /// The samples are not 16 bits wide; the width found is given.
    UnsupportedBitDepth(u16),
}

/// What hound's `WavReader` makes of `bytes`: nothing where it finds no
/// header; else the header, with the samples that it reads as 16-bit integers
/// where it can read them all.
pub uninterp spec fn wav_reading(bytes: Seq<u8>) -> Option<(WavHeader, Option<Seq<i16>>)>;

/// Calls `hound::WavReader::new` on `bytes`, and on the reader that it gives
/// `spec` and `samples::<i16>`, whose items are collected up to the first
/// failure. The contract claims only that the outcome depends on nothing but
/// the bytes.
#[verifier::external_body]
fn read_wav(bytes: &[u8]) -> (reading: Option<(WavHeader, Option<Vec<i16>>)>)
    ensures
        reading_view(reading) == wav_reading(bytes@),
{
    match hound::WavReader::new(bytes) {
        Ok(mut reader) => {
            let spec = reader.spec();
            let samples: Result<Vec<i16>, hound::Error> = reader.samples::<i16>().collect();
            let header = WavHeader {
                sample_rate: spec.sample_rate,
                channel_count: spec.channels,
                bits_per_sample: spec.bits_per_sample,
            };
            Some((header, samples.ok()))
        },
        Err(_) => None,
    }
}

/// What the decoder made of some bytes, as mathematical values.
pub open spec fn reading_view(reading: Option<(WavHeader, Option<Vec<i16>>)>) -> Option<
    (WavHeader, Option<Seq<i16>>),
> {
    match reading {
        Some((header, Some(samples))) => Some((header, Some(samples@))),
        Some((header, None)) => Some((header, None)),
        None => None,
    }
}

/// A loaded asset, or the error, as mathematical values.
pub open spec fn loaded_view(loaded: Result<AudioAsset, LoadError>) -> Result<
    AssetView,
    LoadError,
> {
    match loaded {
        Ok(asset) => Ok(asset@),
        Err(error) => Err(error),
    }
}

/// The asset that the decoder's reading makes. Without a header there is
/// none; a header whose samples are not 16 bits wide is rejected for that
/// width, whatever became of the samples; behind a header that passes, the
/// samples must have been read.
pub open spec fn assembled(reading: Option<(WavHeader, Option<Seq<i16>>)>) -> Result<
    AssetView,
    LoadError,
> {
    match reading {
        None => Err(LoadError::Undecodable),
        Some((header, samples)) => if header.bits_per_sample != 16 {
            Err(LoadError::UnsupportedBitDepth(header.bits_per_sample))
        } else {
            match samples {
                None => Err(LoadError::Undecodable),
                Some(s) => Ok(
                    AssetView {
                        sample_rate: header.sample_rate,
                        channel_count: header.channel_count,
                        samples: s,
                    },
                ),
            }
        },
    }
}

/// What loading a file gives: no asset from a file that could not be read,
/// else what the decoder's reading of its content makes.
pub open spec fn loaded(file: Option<Seq<u8>>) -> Result<AssetView, LoadError> {
    match file {
        None => Err(LoadError::Unreadable),
        Some(bytes) => assembled(wav_reading(bytes)),
    }
}

/// Makes the asset of what the decoder read, if it read a header with
/// 16-bit samples and the samples behind it.
pub fn assemble(reading: Option<(WavHeader, Option<Vec<i16>>)>) -> (outcome: Result<
    AudioAsset,
    LoadError,
>)
    ensures
        loaded_view(outcome) == assembled(reading_view(reading)),
{
    match reading {
        None => Err(LoadError::Undecodable),
        Some((header, samples)) => {
            if header.bits_per_sample != 16 {
                Err(LoadError::UnsupportedBitDepth(header.bits_per_sample))
            } else {
                match samples {
                    None => Err(LoadError::Undecodable),
                    Some(v) => Ok(AudioAsset::new(header.sample_rate, header.channel_count, v)),
                }
            }
        },
    }
}

/// Decodes PCM WAVE data with 16-bit samples into an asset.
pub fn decode_wav(bytes: &[u8]) -> (outcome: Result<AudioAsset, LoadError>)
    ensures
        loaded_view(outcome) == assembled(wav_reading(bytes@)),
{
    assemble(read_wav(bytes))
}

/// Loads an asset from the content of a file, `None` standing for a file
/// that could not be read.
pub fn load_data(file: Option<&[u8]>) -> (outcome: Result<AudioAsset, LoadError>)
    ensures
        loaded_view(outcome) == loaded(
            match file {
                Some(bytes) => Some(bytes@),
                None => None,
            },
        ),
{
    match file {
        None => Err(LoadError::Unreadable),
        Some(bytes) => decode_wav(bytes),
    }
}

} // verus!
