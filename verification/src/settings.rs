//! Settings: the mutable stored row as the settings store hands it over, and
//! the immutable per-cycle snapshot the capture pipeline works with, resolved
//! from the stored row with documented defaults for absent fields.

use vstd::prelude::*;

verus! {

/// The settings row as the external settings store keeps it: every field may
/// be absent.
#[derive(Debug, Clone)]
pub struct Settings {
    pub api_base_url: Option<String>,
    pub api_key: Option<String>,
    pub model_name: Option<String>,
    pub screenshot_interval: Option<i32>,
    pub summary_time: Option<String>,
    pub obsidian_path: Option<String>,
    pub auto_capture_enabled: Option<bool>,
    pub last_summary_path: Option<String>,
    pub analysis_prompt: Option<String>,
    pub change_threshold: Option<i32>,
    pub max_silent_minutes: Option<i64>,
}

/// Default change threshold: 3 percent, in hundredths of a percent.
pub const DEFAULT_CHANGE_THRESHOLD: u32 = 300;

/// Default silence window before a heartbeat capture, in minutes.
pub const DEFAULT_MAX_SILENT_MINUTES: u64 = 30;

/// Default interval between scheduled cycles, in minutes.
pub const DEFAULT_SCREENSHOT_INTERVAL: u64 = 5;

/// Immutable per-cycle snapshot of everything a capture cycle needs.
#[derive(Debug, Clone)]
pub struct CaptureSettings {
    pub api_base_url: String,
    pub api_key: String,
    pub model_name: String,
    /// Minutes between scheduled cycles.
    pub screenshot_interval: u64,
    /// Instructional prompt override; `None` or empty falls back to the
    /// built-in default prompt.
    pub analysis_prompt: Option<String>,
    /// Gate threshold in hundredths of a percent (0 ..= 10000).
    pub change_threshold: u32,
    /// Minutes of silence after which a capture is forced.
    pub max_silent_minutes: u64,
}

impl Default for CaptureSettings {
    /// The built-in defaults, used when the settings store cannot be read.
    fn default() -> (s: CaptureSettings)
        ensures
            s.api_base_url@ == "https://api.openai.com/v1"@,
            s.api_key@ == Seq::<char>::empty(),
            s.model_name@ == "gpt-4o"@,
            s.screenshot_interval == DEFAULT_SCREENSHOT_INTERVAL,
            s.analysis_prompt is None,
            s.change_threshold == DEFAULT_CHANGE_THRESHOLD,
            s.max_silent_minutes == DEFAULT_MAX_SILENT_MINUTES,
    {
        CaptureSettings {
            api_base_url: String::from_str("https://api.openai.com/v1"),
            api_key: String::new(),
            model_name: String::from_str("gpt-4o"),
            screenshot_interval: DEFAULT_SCREENSHOT_INTERVAL,
            analysis_prompt: None,
            change_threshold: DEFAULT_CHANGE_THRESHOLD,
            max_silent_minutes: DEFAULT_MAX_SILENT_MINUTES,
        }
    }
}

/// The resolved gate threshold, in hundredths of a percent: an absent field
/// falls back to the default, a stored percentage is scaled, and values
/// outside 0 ..= 100 percent are clamped to the nearest bound.
pub open spec fn resolved_threshold(stored: Option<i32>) -> u32 {
    match stored {
        None => DEFAULT_CHANGE_THRESHOLD,
        Some(p) => if p < 0 {
            0
        } else if p > 100 {
            10000
        } else {
            (p * 100) as u32
        },
    }
}

/// The resolved cycle interval in minutes: absent or negative values fall
/// back to the default.
pub open spec fn resolved_interval(stored: Option<i32>) -> u64 {
    match stored {
        None => DEFAULT_SCREENSHOT_INTERVAL,
        Some(v) => if v >= 0 {
            v as u64
        } else {
            DEFAULT_SCREENSHOT_INTERVAL
        },
    }
}

/// The resolved silence window in minutes: absent or negative values fall
/// back to the default.
pub open spec fn resolved_max_silent(stored: Option<i64>) -> u64 {
    match stored {
        None => DEFAULT_MAX_SILENT_MINUTES,
        Some(v) => if v >= 0 {
            v as u64
        } else {
            DEFAULT_MAX_SILENT_MINUTES
        },
    }
}

/// Build the per-cycle snapshot from the settings store's answer. `None`
/// (the store could not be read) yields the built-in defaults; a stored row
/// is resolved field by field: text fields default to empty (the model name
/// to its built-in default), numeric fields as the `resolved_*` functions
/// say.
pub fn load_capture_settings(stored: Option<Settings>) -> (r: CaptureSettings)
    ensures
        match stored {
            None => {
                &&& r.api_base_url@ == "https://api.openai.com/v1"@
                &&& r.api_key@ == Seq::<char>::empty()
                &&& r.model_name@ == "gpt-4o"@
                &&& r.screenshot_interval == DEFAULT_SCREENSHOT_INTERVAL
                &&& r.analysis_prompt is None
                &&& r.change_threshold == DEFAULT_CHANGE_THRESHOLD
                &&& r.max_silent_minutes == DEFAULT_MAX_SILENT_MINUTES
            },
            Some(s) => {
                &&& r.api_base_url.deep_view() == match s.api_base_url {
                    Some(u) => u@,
                    None => Seq::<char>::empty(),
                }
                &&& r.api_key.deep_view() == match s.api_key {
                    Some(k) => k@,
                    None => Seq::<char>::empty(),
                }
                &&& r.model_name.deep_view() == match s.model_name {
                    Some(m) => m@,
                    None => "gpt-4o"@,
                }
                &&& r.screenshot_interval == resolved_interval(s.screenshot_interval)
                &&& r.analysis_prompt.deep_view() == s.analysis_prompt.deep_view()
                &&& r.change_threshold == resolved_threshold(s.change_threshold)
                &&& r.max_silent_minutes == resolved_max_silent(s.max_silent_minutes)
            },
        },
{
    match stored {
        None => CaptureSettings::default(),
        Some(s) => CaptureSettings {
            api_base_url: match s.api_base_url {
                Some(u) => u,
                None => String::new(),
            },
            api_key: match s.api_key {
                Some(k) => k,
                None => String::new(),
            },
            model_name: match s.model_name {
                Some(m) => m,
                None => String::from_str("gpt-4o"),
            },
            screenshot_interval: match s.screenshot_interval {
                Some(v) => if v >= 0 {
                    v as u64
                } else {
                    DEFAULT_SCREENSHOT_INTERVAL
                },
                None => DEFAULT_SCREENSHOT_INTERVAL,
            },
            analysis_prompt: s.analysis_prompt,
            change_threshold: match s.change_threshold {
                Some(p) => if p < 0 {
                    0
                } else if p > 100 {
                    10000
                } else {
                    (p * 100) as u32
                },
                None => DEFAULT_CHANGE_THRESHOLD,
            },
            max_silent_minutes: match s.max_silent_minutes {
                Some(v) => if v >= 0 {
                    v as u64
                } else {
                    DEFAULT_MAX_SILENT_MINUTES
                },
                None => DEFAULT_MAX_SILENT_MINUTES,
            },
        },
    }
}

} // verus!
