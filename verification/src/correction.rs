use vstd::prelude::*;

use crate::external::{clock_now, duration_since_epoch, random_uuid, whole_secs};

verus! {

/// The fixed-point value that stands for 1.0: confidences and accuracies are
/// counted in millionths.
pub const UNIT: u32 = 1_000_000;

/// A confidence clamped into `[0, UNIT]`, that is into `[0.0, 1.0]`.
pub open spec fn clamp_confidence(raw: int) -> int {
    if raw < 0 {
        0
    } else if raw > UNIT {
        UNIT as int
    } else {
        raw
    }
}

/// A single cloud-resolution correction record.
#[derive(Debug, Clone, PartialEq)]
pub struct Correction {
    pub id: uuid::Uuid,
    pub room_id: String,
    pub tile_id: String,
    pub original_label: String,
    pub expected_label: String,
    pub cloud_response: String,
    /// Confidence in millionths, within `[0, UNIT]` for a correction made by `new`.
    pub confidence: u32,
    /// Seconds since the Unix epoch at which the correction was made.
    pub timestamp: u64,
}

/// The current time as whole seconds since the Unix epoch, read from the
/// system clock; 0 where the clock reads before the epoch.
pub(crate) fn current_unix_secs() -> u64 {
    let now = clock_now();
    match duration_since_epoch(&now) {
        Some(d) => whole_secs(&d),
        None => 0,
    }
}

/// Clamps a raw confidence (in millionths) into `[0, UNIT]`.
pub fn clamp_to_unit(raw: i64) -> (c: u32)
    ensures
        c == clamp_confidence(raw as int),
{
    if raw < 0 {
        0
    } else if raw > UNIT as i64 {
        UNIT
    } else {
        raw as u32
    }
}

impl Correction {
    /// Builds a correction from an identifier and a timestamp already obtained:
    /// the labels are copied and the confidence is clamped into `[0, UNIT]`.
    pub fn from_parts(
        id: uuid::Uuid,
        room_id: &str,
        tile_id: &str,
        original_label: &str,
        expected_label: &str,
        cloud_response: &str,
        confidence: i64,
        timestamp: u64,
    ) -> (c: Self)
        ensures
            c.id == id,
            c.room_id@ == room_id@,
            c.tile_id@ == tile_id@,
            c.original_label@ == original_label@,
            c.expected_label@ == expected_label@,
            c.cloud_response@ == cloud_response@,
            c.confidence == clamp_confidence(confidence as int),
            c.timestamp == timestamp,
    {
        Correction {
            id,
            room_id: room_id.to_owned(),
            tile_id: tile_id.to_owned(),
            original_label: original_label.to_owned(),
            expected_label: expected_label.to_owned(),
            cloud_response: cloud_response.to_owned(),
            confidence: clamp_to_unit(confidence),
            timestamp,
        }
    }

    /// Makes a correction with a fresh random identifier, stamped with the
    /// current time; the confidence (in millionths) is clamped into `[0, UNIT]`.
    pub fn new(
        room_id: &str,
        tile_id: &str,
        original_label: &str,
        expected_label: &str,
        cloud_response: &str,
        confidence: i64,
    ) -> (c: Self)
        ensures
            c.room_id@ == room_id@,
            c.tile_id@ == tile_id@,
            c.original_label@ == original_label@,
            c.expected_label@ == expected_label@,
            c.cloud_response@ == cloud_response@,
            c.confidence == clamp_confidence(confidence as int),
            0 <= c.confidence <= UNIT,
    {
        let id = random_uuid();
        let timestamp = current_unix_secs();
        Self::from_parts(id, room_id, tile_id, original_label, expected_label, cloud_response, confidence, timestamp)
    }
}

/// A training example extracted from corrections for LoRA adapter training.
#[derive(Debug, Clone, PartialEq, Eq)]
pub struct TrainingExample {
    pub input: String,
    pub expected_output: String,
    /// Confidence in millionths.
    pub confidence: u32,
    pub tile_id: String,
}

} // verus!
