//! The radio's modulation settings, as the menu edits them.
use vstd::prelude::*;

use crate::config::LORA_FREQUENCY_HZ;

verus! {

/// LoRa spreading factor.
#[derive(Clone, Copy, Debug, PartialEq, Eq, Structural)]
pub enum SpreadingFactor {
    _5,
    _6,
    _7,
    _8,
    _9,
    _10,
    _11,
    _12,
}

/// LoRa channel bandwidth.
#[derive(Clone, Copy, Debug, PartialEq, Eq, Structural)]
pub enum Bandwidth {
    _7KHz,
    _10KHz,
    _15KHz,
    _20KHz,
    _31KHz,
    _41KHz,
    _62KHz,
    _125KHz,
    _250KHz,
    _500KHz,
}

/// LoRa forward-error-correction coding rate.
#[derive(Clone, Copy, Debug, PartialEq, Eq, Structural)]
pub enum CodingRate {
    _4_5,
    _4_6,
    _4_7,
    _4_8,
}

/// The settings the radio is configured with.
#[derive(Clone, Copy, Debug, PartialEq, Eq, Structural)]
pub struct RadioSettings {
    pub spreading_factor: SpreadingFactor,
    pub bandwidth: Bandwidth,
    pub coding_rate: CodingRate,
    pub frequency_hz: u32,
    pub tx_power_dbm: i32,
}

impl RadioSettings {
    /// SF12, 125 kHz, 4/5, at `LORA_FREQUENCY_HZ` and 22 dBm.
    pub fn default() -> (r: Self)
        ensures
            r == (RadioSettings {
                spreading_factor: SpreadingFactor::_12,
                bandwidth: Bandwidth::_125KHz,
                coding_rate: CodingRate::_4_5,
                frequency_hz: LORA_FREQUENCY_HZ,
                tx_power_dbm: 22,
            }),
    {
        Self {
            spreading_factor: SpreadingFactor::_12,
            bandwidth: Bandwidth::_125KHz,
            coding_rate: CodingRate::_4_5,
            frequency_hz: LORA_FREQUENCY_HZ,
            tx_power_dbm: 22,
        }
    }
}

} // verus!
