//! Volumes as the audio server counts them, and the percentages shown for them.
//!
//! A volume is an amplitude in units of which `VOLUME_NORM` make 100%. A device
//! has one volume per channel; what is shown for it is the percentage of its
//! loudest channel, rounded to the nearest whole number, halves upwards.

use vstd::prelude::*;

verus! {

/// The volume shown as 100%.
pub const VOLUME_NORM: u32 = 0x10000;

/// The largest volume that the audio server takes.
pub const VOLUME_MAX: u32 = 0x7fff_ffff;

/// The largest percentage that a slider offers.
pub const PERCENT_MAX: u32 = 100;

/// The loudest of `channels`; 0 where there is none.
pub open spec fn spec_max_volume(channels: Seq<u32>) -> u32
    decreases channels.len(),
{
    if channels.len() == 0 {
        0
    } else {
        let rest = spec_max_volume(channels.drop_last());
        if channels.last() > rest {
            channels.last()
        } else {
            rest
        }
    }
}

/// The percentage shown for `volume`: `volume * 100 / VOLUME_NORM`, rounded to
/// the nearest whole number, a half upwards.
pub open spec fn spec_volume_to_percentage(volume: u32) -> int {
    (volume as int * 100 + VOLUME_NORM as int / 2) / (VOLUME_NORM as int)
}

/// The volume set for `percent`: `percent * VOLUME_NORM / 100`, rounded to the
/// nearest whole number, a half upwards, and no more than `VOLUME_MAX`.
pub open spec fn spec_percentage_to_level(percent: u32) -> int {
    let level = (percent as int * VOLUME_NORM as int + 50) / 100;
    if level > VOLUME_MAX as int {
        VOLUME_MAX as int
    } else {
        level
    }
}

/// One channel of a device whose loudest channel is at `loudest`, once that
/// loudest channel is set to `level`: the channel keeps its share of the
/// loudest, rounded down, and stays within `VOLUME_MAX`.
pub open spec fn spec_scale_channel(channel: u32, loudest: u32, level: u32) -> int {
    if loudest == 0 {
        level as int
    } else {
        let scaled = (channel as int * level as int) / (loudest as int);
        if scaled > VOLUME_MAX as int {
            VOLUME_MAX as int
        } else {
            scaled
        }
    }
}

/// `channels` with the loudest set to `level` and the others in proportion.
pub open spec fn spec_scale(channels: Seq<u32>, level: u32) -> Seq<u32> {
    Seq::new(
        channels.len(),
        |i: int| spec_scale_channel(channels[i], spec_max_volume(channels), level) as u32,
    )
}

/// `channels` as they stand once the device is set to `percent`.
pub open spec fn spec_percentage_to_volume(percent: u32, channels: Seq<u32>) -> Seq<u32> {
    spec_scale(channels, spec_percentage_to_level(percent) as u32)
}

/// No channel is louder than the loudest, and the loudest is one of them.
pub proof fn lemma_max_volume_bounds(channels: Seq<u32>)
    ensures
        forall|i: int| 0 <= i < channels.len() ==> channels[i] <= spec_max_volume(channels),
        channels.len() > 0 ==> exists|i: int|
            0 <= i < channels.len() && channels[i] == spec_max_volume(channels),
        channels.len() == 0 ==> spec_max_volume(channels) == 0,
    decreases channels.len(),
{
    if channels.len() > 0 {
        let rest = channels.drop_last();
        lemma_max_volume_bounds(rest);
        assert forall|i: int| 0 <= i < channels.len() implies channels[i] <= spec_max_volume(
            channels,
        ) by {
            if i < rest.len() {
                assert(rest[i] == channels[i]);
            }
        }
        if channels.last() > spec_max_volume(rest) || rest.len() == 0 {
            assert(channels[channels.len() - 1] == spec_max_volume(channels));
        } else {
            let j = choose|j: int| 0 <= j < rest.len() && rest[j] == spec_max_volume(rest);
            assert(channels[j] == spec_max_volume(channels));
        }
    }
}

/// The loudest of `channels`.
pub fn max_volume(channels: &Vec<u32>) -> (loudest: u32)
    ensures
        loudest == spec_max_volume(channels@),
{
    let mut loudest: u32 = 0;
    let mut i: usize = 0;
    while i < channels.len()
        invariant
            i <= channels.len(),
            loudest == spec_max_volume(channels@.take(i as int)),
        decreases channels.len() - i,
    {
        assert(channels@.take(i as int + 1).drop_last() == channels@.take(i as int));
        if channels[i] > loudest {
            loudest = channels[i];
        }
        i += 1;
    }
    assert(channels@.take(i as int) == channels@);
    loudest
}

/// The percentage shown for `volume`.
pub fn volume_to_percentage(volume: u32) -> (percent: u32)
    ensures
        percent == spec_volume_to_percentage(volume),
{
    ((volume as u64 * 100 + (VOLUME_NORM as u64) / 2) / (VOLUME_NORM as u64)) as u32
}

/// The volume set for `percent`.
pub fn percentage_to_level(percent: u32) -> (level: u32)
    ensures
        level == spec_percentage_to_level(percent),
{
    let level: u64 = (percent as u64 * 0x10000 + 50) / 100;
    if level > VOLUME_MAX as u64 {
        VOLUME_MAX
    } else {
        level as u32
    }
}

/// `channels` with the loudest set to `level` and the others in proportion.
pub fn scale(channels: &Vec<u32>, level: u32) -> (scaled: Vec<u32>)
    ensures
        scaled@ == spec_scale(channels@, level),
{
    let loudest = max_volume(channels);
    let mut scaled: Vec<u32> = Vec::new();
    let mut i: usize = 0;
    while i < channels.len()
        invariant
            i <= channels.len(),
            loudest == spec_max_volume(channels@),
            scaled@.len() == i,
            forall|j: int|
                0 <= j < i ==> scaled@[j] == spec_scale_channel(channels@[j], loudest, level),
        decreases channels.len() - i,
    {
        let channel = channels[i];
        let value: u32 = if loudest == 0 {
            level
        } else {
            proof {
                lemma_max_volume_bounds(channels@);
                assert(channel as int * level as int <= 0xffff_ffff * 0xffff_ffff)
                    by (nonlinear_arith)
                    requires
                        0 <= channel <= 0xffff_ffff,
                        0 <= level <= 0xffff_ffff,
                ;
            }
            let share: u64 = (channel as u64 * level as u64) / (loudest as u64);
            if share > VOLUME_MAX as u64 {
                VOLUME_MAX
            } else {
                share as u32
            }
        };
        scaled.push(value);
        i += 1;
    }
    assert(scaled@ =~= spec_scale(channels@, level));
    scaled
}

/// `channels` as they stand once the device is set to `percent`: the loudest
/// channel at the volume of `percent`, the others in proportion to it.
pub fn percentage_to_volume(percent: u32, channels: &Vec<u32>) -> (scaled: Vec<u32>)
    ensures
        scaled@ == spec_percentage_to_volume(percent, channels@),
{
    scale(channels, percentage_to_level(percent))
}

/// The loudest of `channels` is the one value that is among them and under
/// which all of them stay.
pub proof fn lemma_max_volume_is(channels: Seq<u32>, loudest: u32, at: int)
    requires
        0 <= at < channels.len(),
        channels[at] == loudest,
        forall|i: int| 0 <= i < channels.len() ==> channels[i] <= loudest,
    ensures
        spec_max_volume(channels) == loudest,
{
    lemma_max_volume_bounds(channels);
}

/// Scaling a device that has a channel sets its loudest channel to `level`.
pub proof fn lemma_scale_sets_loudest(channels: Seq<u32>, level: u32)
    requires
        channels.len() > 0,
        level <= VOLUME_MAX,
    ensures
        spec_max_volume(spec_scale(channels, level)) == level,
{
    lemma_max_volume_bounds(channels);
    let loudest = spec_max_volume(channels);
    let scaled = spec_scale(channels, level);
    let at = choose|i: int| 0 <= i < channels.len() && channels[i] == loudest;
    assert forall|i: int| 0 <= i < scaled.len() implies scaled[i] <= level by {
        let c = channels[i];
        if loudest != 0 {
            assert((c as int * level as int) / (loudest as int) <= level as int)
                by (nonlinear_arith)
                requires
                    0 <= c <= loudest,
                    0 < loudest,
                    0 <= level,
            ;
            assert(0 <= (c as int * level as int) / (loudest as int)) by (nonlinear_arith)
                requires
                    0 <= c,
                    0 < loudest,
                    0 <= level,
            ;
        }
    }
    assert(scaled[at] == level) by {
        if loudest != 0 {
            assert((loudest as int * level as int) / (loudest as int) == level as int)
                by (nonlinear_arith)
                requires
                    0 < loudest,
            ;
        }
    }
    lemma_max_volume_is(scaled, level, at);
}

/// A percentage up to 100 that is set is the percentage that is then shown:
/// setting a device that has a channel to `percent` and reading the percentage
/// of its loudest channel gives `percent` back.
pub proof fn lemma_percentage_round_trip(percent: u32, channels: Seq<u32>)
    requires
        percent <= PERCENT_MAX,
        channels.len() > 0,
    ensures
        spec_volume_to_percentage(spec_percentage_to_level(percent) as u32) == percent,
        spec_volume_to_percentage(
            spec_max_volume(spec_percentage_to_volume(percent, channels)),
        ) == percent,
{
    lemma_scale_sets_loudest(channels, spec_percentage_to_level(percent) as u32);
}

} // verus!
