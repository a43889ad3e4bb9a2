use vstd::prelude::*;
use crate::text::str_eq;

verus! {

/// Capture settings of the screen recorder.
#[derive(Debug, Clone)]
pub struct RecordingConfig {
    pub enabled: bool,
    /// Length of one recording segment, in seconds.
    pub segment_duration_seconds: u64,
    /// Frames per second.
    pub framerate: u8,
    /// Days a recording is kept.
    pub retention_days: u32,
    /// Storage quota, in bytes.
    pub max_storage_bytes: u64,
    /// Output width in pixels; the height keeps the aspect ratio.
    pub output_width: u32,
    /// Encoder quality, 0 to 51, lower is better.
    pub crf: u8,
    /// Encoder speed preset.
    pub preset: String,
}

impl Default for RecordingConfig {
    /// Disabled; five-minute segments at four frames per second, kept three
    /// days within five gigabytes, 1280 pixels wide, quality 30, preset `fast`.
    fn default() -> (r: Self)
        ensures
            !r.enabled,
            r.segment_duration_seconds == 300,
            r.framerate == 4,
            r.retention_days == 3,
            r.max_storage_bytes == 5000000000,
            r.output_width == 1280,
            r.crf == 30,
            r.preset@ == "fast"@,
    {
        RecordingConfig {
            enabled: false,
            segment_duration_seconds: 300,
            framerate: 4,
            retention_days: 3,
            max_storage_bytes: 5000000000,
            output_width: 1280,
            crf: 30,
            preset: String::from_str("fast"),
        }
    }
}

impl RecordingConfig {
    /// Whether moving to `other` needs the recorder restarted: a capture
    /// setting differs. Retention and quota apply in place.
    pub fn needs_recording_restart(&self, other: &RecordingConfig) -> (r: bool)
        ensures
            r == !(self.enabled == other.enabled
                && self.segment_duration_seconds == other.segment_duration_seconds
                && self.framerate == other.framerate
                && self.output_width == other.output_width
                && self.crf == other.crf
                && self.preset@ == other.preset@),
    {
        !(self.enabled == other.enabled
            && self.segment_duration_seconds == other.segment_duration_seconds
            && self.framerate == other.framerate
            && self.output_width == other.output_width
            && self.crf == other.crf
            && str_eq(&self.preset, &other.preset))
    }
}

/// Settings of the video analysis jobs.
#[derive(Debug, Clone, PartialEq, Eq, Structural)]
pub struct GeminiConfig {
    pub enabled: bool,
    /// Requests per minute; 0 is no limit.
    pub rate_limit_per_minute: u32,
    /// Retries of a failed job (rate limits aside).
    pub max_retries: u32,
    /// Base delay between retries, in seconds.
    pub retry_delay_seconds: u64,
    pub thinking_budget: u32,
    /// Rate-limit waits before a job fails.
    pub rate_limit_max_waits: u32,
    /// Longest single rate-limit wait, in seconds.
    pub rate_limit_max_wait_seconds: u64,
}

impl Default for GeminiConfig {
    fn default() -> (r: Self)
        ensures
            !r.enabled,
            r.rate_limit_per_minute == 0,
            r.max_retries == 3,
            r.retry_delay_seconds == 5,
            r.thinking_budget == 1024,
            r.rate_limit_max_waits == 5,
            r.rate_limit_max_wait_seconds == 120,
    {
        GeminiConfig {
            enabled: false,
            rate_limit_per_minute: 0,
            max_retries: 3,
            retry_delay_seconds: 5,
            thinking_budget: 1024,
            rate_limit_max_waits: 5,
            rate_limit_max_wait_seconds: 120,
        }
    }
}

/// Counters of the analysis job queue.
#[derive(Debug, Clone)]
pub struct QueueStats {
    pub jobs_submitted: u64,
    pub jobs_completed: u64,
    pub jobs_failed: u64,
    pub jobs_pending: u64,
    pub last_error: Option<String>,
}

impl Default for QueueStats {
    fn default() -> (r: Self)
        ensures
            r.jobs_submitted == 0,
            r.jobs_completed == 0,
            r.jobs_failed == 0,
            r.jobs_pending == 0,
            r.last_error is None,
    {
        QueueStats { jobs_submitted: 0, jobs_completed: 0, jobs_failed: 0, jobs_pending: 0, last_error: None }
    }
}

} // verus!
