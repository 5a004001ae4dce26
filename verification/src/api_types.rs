//! The request and response shapes the HTTP API exchanges, as plain data.
//! Serialization lives outside the library; these are the values the
//! handlers produce and consume.

use vstd::prelude::*;
use std::collections::HashMap;

verus! {

/// Aggregate beatmap counts, with per-pattern totals.
pub struct BeatmapCountResponse {
    pub total_beatmaps: i64,
    pub total_beatmapsets: i64,
    pub patterns: HashMap<String, u64>,
}

/// A request to register one beatmap by its identifier.
#[derive(Clone, Copy, Debug, PartialEq, Eq, Structural)]
pub struct PostBeatmapByIdRequest {
    pub id: i32,
}

/// The outcome of registering one beatmap.
#[derive(Clone, Debug)]
pub struct PostBeatmapByIdResponse {
    pub message: String,
    pub status: String,
}

/// A beatmapset lookup's optional rating-type filter.
#[derive(Clone, Debug)]
pub struct BeatmapQuery {
    pub rating_type: Option<String>,
}

/// A batch lookup by beatmapset identifiers.
#[derive(Clone, Debug)]
pub struct BeatmapOsuIdsRequest {
    pub osu_ids: Vec<i32>,
}

/// A single-beatmapset lookup's optional rating-type filter.
#[derive(Clone, Debug)]
pub struct BeatmapsetQuery {
    pub rating_type: Option<String>,
}

/// Who played a score.
#[derive(Clone, Debug)]
pub struct UserInfo {
    pub id: i64,
    pub username: String,
}

/// Judgement counts of one score.
#[derive(Clone, Copy, Debug, PartialEq, Eq, Structural)]
pub struct HitsInfo {
    pub count_300: i32,
    pub count_100: i32,
    pub count_50: i32,
    pub count_miss: i32,
    pub count_katu: i32,
    pub count_geki: i32,
}

/// The score fields a submission carries.
#[derive(Clone, Debug)]
pub struct ScoreData {
    pub hash: String,
    pub mods: i64,
    pub rank: String,
}

/// The outcome of a score submission.
#[derive(Clone, Debug)]
pub struct SubmitScoreResponse {
    pub message: String,
    pub status: String,
    pub score_id: Option<i32>,
}

/// A request to set up one weekly rotation: the week number and exactly
/// seven beatmap checksums.
#[derive(Clone, Debug)]
pub struct SetupWeekRequest {
    pub week_number: i32,
    pub beatmap_checksums: [String; 7],
}

/// The outcome of setting up a weekly rotation.
#[derive(Clone, Debug)]
pub struct SetupWeekResponse {
    pub message: String,
    pub status: String,
    pub weekly_id: Option<i32>,
    pub added_beatmaps: Option<Vec<i32>>,
}

} // verus!
