//! The audio asset and the store that publishes it.

use vstd::prelude::*;
use crate::sample::{narrow, narrowed};

verus! {

/// The mathematical content of an [`AudioAsset`].
pub struct AssetView {
    /// The number of frames per second.
    pub sample_rate: u32,
    /// The number of channels that the samples interleave.
    pub channel_count: u16,
    /// The samples, interleaved by channel.
    pub samples: Seq<i16>,
}

/// One decoded clip: its format and its samples. It never changes once built.
pub struct AudioAsset {
    sample_rate: u32,
    channel_count: u16,
    samples: Vec<i16>,
}

impl View for AudioAsset {
    type V = AssetView;

    closed spec fn view(&self) -> AssetView {
        AssetView {
            sample_rate: self.sample_rate,
            channel_count: self.channel_count,
            samples: self.samples@,
        }
    }
}

impl AudioAsset {
    /// An asset of the given format that holds `samples`.
    pub fn new(sample_rate: u32, channel_count: u16, samples: Vec<i16>) -> (asset: AudioAsset)
        ensures
            asset@ == (AssetView { sample_rate, channel_count, samples: samples@ }),
    {
        AudioAsset { sample_rate, channel_count, samples }
    }

    /// The number of frames per second that the samples are meant for.
    pub fn sample_rate(&self) -> (rate: u32)
        ensures
            rate == self@.sample_rate,
    {
        self.sample_rate
    }

    /// The number of channels that the samples interleave.
    pub fn channel_count(&self) -> (count: u16)
        ensures
            count == self@.channel_count,
    {
        self.channel_count
    }

    /// An asset of the same format whose samples are the values of `scaled`,
    /// each clipped to the signed 16-bit range. It is meant for the samples of
    /// this asset, each multiplied by a gain.
    pub fn rescaled(&self, scaled: &Vec<i128>) -> (asset: AudioAsset)
        ensures
            asset@ == (AssetView { samples: narrowed(scaled@), ..self@ }),
    {
        AudioAsset {
            sample_rate: self.sample_rate,
            channel_count: self.channel_count,
            samples: narrow(scaled),
        }
    }

    /// The asset's samples, interleaved by channel.
    pub fn samples(&self) -> (samples: &Vec<i16>)
        ensures
            samples@ == self@.samples,
    {
        &self.samples
    }
}

/// Holds the asset that is currently published, if any.
pub struct AssetStore {
    current: Option<AudioAsset>,
}

impl View for AssetStore {
    type V = Option<AssetView>;

    closed spec fn view(&self) -> Option<AssetView> {
        match self.current {
            Some(asset) => Some(asset@),
            None => None,
        }
    }
}

impl AssetStore {
    /// A store in which nothing is published yet.
    pub fn new() -> (store: AssetStore)
        ensures
            store@ is None,
    {
        AssetStore { current: None }
    }

    /// Replaces whatever was published by `asset`, as a whole.
    pub fn publish(&mut self, asset: AudioAsset)
        ensures
            final(self)@ == Some(asset@),
    {
        self.current = Some(asset);
    }

    /// The published asset, or `None` before the first publication.
    pub fn current(&self) -> (asset: Option<&AudioAsset>)
        ensures
            match asset {
                Some(a) => self@ == Some(a@),
                None => self@ is None,
            },
    {
        self.current.as_ref()
    }
}

} // verus!
