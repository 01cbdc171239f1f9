//! Browser fingerprint profiles and the tables that coherent fingerprints
//! are drawn from: user agents, GPUs, WebGL vendors, screen resolutions,
//! timezones and language lists for desktop, tablet and mobile browsers.
//!
//! Device pixel ratios are floating point, so fingerprints themselves are
//! assembled outside this library; every table here is plain data.

use vstd::prelude::*;

use crate::config::Viewport;
use crate::text::{contains_seq, contains_str};

verus! {

/// High-level browser profile family used to select coherent fingerprint
/// sets.
#[derive(Debug, Clone, Copy, PartialEq, Eq, Structural)]
pub enum FingerprintProfile {
    /// Full-HD desktop (Windows / macOS / Linux).
    Desktop,
    /// Mid-range Android tablet.
    Tablet,
    /// Modern smartphone (iOS or Android).
    Mobile,
}

/// The profile family of a viewport: the one of the same name.
pub open spec fn profile_of(v: Viewport) -> FingerprintProfile {
    match v {
        Viewport::Desktop => FingerprintProfile::Desktop,
        Viewport::Tablet => FingerprintProfile::Tablet,
        Viewport::Mobile => FingerprintProfile::Mobile,
    }
}

impl From<Viewport> for FingerprintProfile {
    fn from(v: Viewport) -> (res: Self) {
        match v {
            Viewport::Desktop => FingerprintProfile::Desktop,
            Viewport::Tablet => FingerprintProfile::Tablet,
            Viewport::Mobile => FingerprintProfile::Mobile,
        }
    }
}

impl vstd::std_specs::convert::FromSpecImpl<Viewport> for FingerprintProfile {
    open spec fn obeys_from_spec() -> bool {
        true
    }

    open spec fn from_spec(v: Viewport) -> FingerprintProfile {
        profile_of(v)
    }
}

/// The profile family of a viewport (see [`profile_of`]).
pub fn profile_for_viewport(v: Viewport) -> (res: FingerprintProfile)
    ensures
        res == profile_of(v),
{
    FingerprintProfile::from(v)
}

/// Desktop user agents: Chrome, Firefox, Safari and Edge on Windows, macOS
/// and Linux.
pub fn desktop_uas() -> (res: Vec<&'static str>)
    ensures
        res@ == seq![
            "Mozilla/5.0 (Windows NT 10.0; Win64; x64) AppleWebKit/537.36 (KHTML, like Gecko) Chrome/126.0.0.0 Safari/537.36",
            "Mozilla/5.0 (Windows NT 10.0; Win64; x64) AppleWebKit/537.36 (KHTML, like Gecko) Chrome/127.0.0.0 Safari/537.36",
            "Mozilla/5.0 (Windows NT 10.0; Win64; x64) AppleWebKit/537.36 (KHTML, like Gecko) Chrome/128.0.0.0 Safari/537.36",
            "Mozilla/5.0 (Macintosh; Intel Mac OS X 10_15_7) AppleWebKit/537.36 (KHTML, like Gecko) Chrome/126.0.0.0 Safari/537.36",
            "Mozilla/5.0 (Macintosh; Intel Mac OS X 10_15_7) AppleWebKit/537.36 (KHTML, like Gecko) Chrome/127.0.0.0 Safari/537.36",
            "Mozilla/5.0 (Macintosh; Intel Mac OS X 10_15_7) AppleWebKit/537.36 (KHTML, like Gecko) Chrome/128.0.0.0 Safari/537.36",
            "Mozilla/5.0 (X11; Linux x86_64) AppleWebKit/537.36 (KHTML, like Gecko) Chrome/126.0.0.0 Safari/537.36",
            "Mozilla/5.0 (X11; Linux x86_64) AppleWebKit/537.36 (KHTML, like Gecko) Chrome/128.0.0.0 Safari/537.36",
            "Mozilla/5.0 (Windows NT 10.0; Win64; x64; rv:127.0) Gecko/20100101 Firefox/127.0",
            "Mozilla/5.0 (Windows NT 10.0; Win64; x64; rv:128.0) Gecko/20100101 Firefox/128.0",
            "Mozilla/5.0 (Macintosh; Intel Mac OS X 14_5) AppleWebKit/605.1.15 (KHTML, like Gecko) Version/17.5 Safari/605.1.15",
            "Mozilla/5.0 (Windows NT 10.0; Win64; x64) AppleWebKit/537.36 (KHTML, like Gecko) Chrome/128.0.0.0 Safari/537.36 Edg/128.0.0.0",
        ],
{
    vec![
        "Mozilla/5.0 (Windows NT 10.0; Win64; x64) AppleWebKit/537.36 (KHTML, like Gecko) Chrome/126.0.0.0 Safari/537.36",
        "Mozilla/5.0 (Windows NT 10.0; Win64; x64) AppleWebKit/537.36 (KHTML, like Gecko) Chrome/127.0.0.0 Safari/537.36",
        "Mozilla/5.0 (Windows NT 10.0; Win64; x64) AppleWebKit/537.36 (KHTML, like Gecko) Chrome/128.0.0.0 Safari/537.36",
        "Mozilla/5.0 (Macintosh; Intel Mac OS X 10_15_7) AppleWebKit/537.36 (KHTML, like Gecko) Chrome/126.0.0.0 Safari/537.36",
        "Mozilla/5.0 (Macintosh; Intel Mac OS X 10_15_7) AppleWebKit/537.36 (KHTML, like Gecko) Chrome/127.0.0.0 Safari/537.36",
        "Mozilla/5.0 (Macintosh; Intel Mac OS X 10_15_7) AppleWebKit/537.36 (KHTML, like Gecko) Chrome/128.0.0.0 Safari/537.36",
        "Mozilla/5.0 (X11; Linux x86_64) AppleWebKit/537.36 (KHTML, like Gecko) Chrome/126.0.0.0 Safari/537.36",
        "Mozilla/5.0 (X11; Linux x86_64) AppleWebKit/537.36 (KHTML, like Gecko) Chrome/128.0.0.0 Safari/537.36",
        "Mozilla/5.0 (Windows NT 10.0; Win64; x64; rv:127.0) Gecko/20100101 Firefox/127.0",
        "Mozilla/5.0 (Windows NT 10.0; Win64; x64; rv:128.0) Gecko/20100101 Firefox/128.0",
        "Mozilla/5.0 (Macintosh; Intel Mac OS X 14_5) AppleWebKit/605.1.15 (KHTML, like Gecko) Version/17.5 Safari/605.1.15",
        "Mozilla/5.0 (Windows NT 10.0; Win64; x64) AppleWebKit/537.36 (KHTML, like Gecko) Chrome/128.0.0.0 Safari/537.36 Edg/128.0.0.0",
    ]
}

/// Desktop WebGL renderer strings.
pub fn desktop_gpus() -> (res: Vec<&'static str>)
    ensures
        res@ == seq![
            "ANGLE (NVIDIA, NVIDIA GeForce RTX 4080 Direct3D11 vs_5_0 ps_5_0, D3D11)",
            "ANGLE (NVIDIA, NVIDIA GeForce RTX 3080 Direct3D11 vs_5_0 ps_5_0, D3D11)",
            "ANGLE (NVIDIA, NVIDIA GeForce RTX 3070 Direct3D11 vs_5_0 ps_5_0, D3D11)",
            "ANGLE (AMD, AMD Radeon RX 6800 XT Direct3D11 vs_5_0 ps_5_0, D3D11)",
            "ANGLE (Intel, Intel(R) UHD Graphics 770 Direct3D11 vs_5_0 ps_5_0, D3D11)",
            "ANGLE (Intel, Intel(R) Iris(R) Xe Graphics Direct3D11 vs_5_0 ps_5_0, D3D11)",
            "ANGLE (Apple, Apple M2 Pro, OpenGL 4.1)",
            "ANGLE (Apple, Apple M1, OpenGL 4.1)",
            "ANGLE (Apple, Apple M3 Max, OpenGL 4.1)",
        ],
{
    vec![
        "ANGLE (NVIDIA, NVIDIA GeForce RTX 4080 Direct3D11 vs_5_0 ps_5_0, D3D11)",
        "ANGLE (NVIDIA, NVIDIA GeForce RTX 3080 Direct3D11 vs_5_0 ps_5_0, D3D11)",
        "ANGLE (NVIDIA, NVIDIA GeForce RTX 3070 Direct3D11 vs_5_0 ps_5_0, D3D11)",
        "ANGLE (AMD, AMD Radeon RX 6800 XT Direct3D11 vs_5_0 ps_5_0, D3D11)",
        "ANGLE (Intel, Intel(R) UHD Graphics 770 Direct3D11 vs_5_0 ps_5_0, D3D11)",
        "ANGLE (Intel, Intel(R) Iris(R) Xe Graphics Direct3D11 vs_5_0 ps_5_0, D3D11)",
        "ANGLE (Apple, Apple M2 Pro, OpenGL 4.1)",
        "ANGLE (Apple, Apple M1, OpenGL 4.1)",
        "ANGLE (Apple, Apple M3 Max, OpenGL 4.1)",
    ]
}

/// Desktop screen resolutions `(width, height)`.
pub fn desktop_resolutions() -> (res: Vec<(u32, u32)>)
    ensures
        res@ == seq![(1920u32, 1080u32), (2560, 1440), (1440, 900), (1680, 1050), (1366, 768), (1280, 800)],
{
    vec![(1920, 1080), (2560, 1440), (1440, 900), (1680, 1050), (1366, 768), (1280, 800)]
}

/// Tablet user agents (Android tablets and iPads).
pub fn tablet_uas() -> (res: Vec<&'static str>)
    ensures
        res@ == seq![
            "Mozilla/5.0 (Linux; Android 13; Pixel Tablet) AppleWebKit/537.36 (KHTML, like Gecko) Chrome/126.0.6478.126 Safari/537.36",
            "Mozilla/5.0 (Linux; Android 14; SM-X700) AppleWebKit/537.36 (KHTML, like Gecko) Chrome/127.0.6533.103 Safari/537.36",
            "Mozilla/5.0 (Linux; Android 13; SM-T870) AppleWebKit/537.36 (KHTML, like Gecko) Chrome/126.0.6478.183 Safari/537.36",
            "Mozilla/5.0 (iPad; CPU OS 17_5 like Mac OS X) AppleWebKit/605.1.15 (KHTML, like Gecko) Version/17.5 Mobile/15E148 Safari/604.1",
            "Mozilla/5.0 (iPad; CPU OS 16_7 like Mac OS X) AppleWebKit/605.1.15 (KHTML, like Gecko) CriOS/126.0.6478.153 Mobile/15E148 Safari/604.1",
        ],
{
    vec![
        "Mozilla/5.0 (Linux; Android 13; Pixel Tablet) AppleWebKit/537.36 (KHTML, like Gecko) Chrome/126.0.6478.126 Safari/537.36",
        "Mozilla/5.0 (Linux; Android 14; SM-X700) AppleWebKit/537.36 (KHTML, like Gecko) Chrome/127.0.6533.103 Safari/537.36",
        "Mozilla/5.0 (Linux; Android 13; SM-T870) AppleWebKit/537.36 (KHTML, like Gecko) Chrome/126.0.6478.183 Safari/537.36",
        "Mozilla/5.0 (iPad; CPU OS 17_5 like Mac OS X) AppleWebKit/605.1.15 (KHTML, like Gecko) Version/17.5 Mobile/15E148 Safari/604.1",
        "Mozilla/5.0 (iPad; CPU OS 16_7 like Mac OS X) AppleWebKit/605.1.15 (KHTML, like Gecko) CriOS/126.0.6478.153 Mobile/15E148 Safari/604.1",
    ]
}

/// Tablet screen resolutions `(width, height)`.
pub fn tablet_resolutions() -> (res: Vec<(u32, u32)>)
    ensures
        res@ == seq![(768u32, 1024u32), (800, 1280), (1200, 1920), (834, 1194)],
{
    vec![(768, 1024), (800, 1280), (1200, 1920), (834, 1194)]
}

/// Tablet WebGL vendors.
pub fn tablet_webgl_vendors() -> (res: Vec<&'static str>)
    ensures
        res@ == seq!["Qualcomm", "ARM", "Imagination Technologies", "MediaTek"],
{
    vec!["Qualcomm", "ARM", "Imagination Technologies", "MediaTek"]
}

/// Tablet WebGL renderers.
pub fn tablet_webgl_renderers() -> (res: Vec<&'static str>)
    ensures
        res@ == seq!["Adreno (TM) 740", "Adreno (TM) 650", "Mali-G715", "PowerVR GT7600 Plus"],
{
    vec!["Adreno (TM) 740", "Adreno (TM) 650", "Mali-G715", "PowerVR GT7600 Plus"]
}

/// iPhone user agents.
pub fn ios_uas() -> (res: Vec<&'static str>)
    ensures
        res@ == seq![
            "Mozilla/5.0 (iPhone; CPU iPhone OS 17_5 like Mac OS X) AppleWebKit/605.1.15 (KHTML, like Gecko) Version/17.5 Mobile/15E148 Safari/604.1",
            "Mozilla/5.0 (iPhone; CPU iPhone OS 17_4 like Mac OS X) AppleWebKit/605.1.15 (KHTML, like Gecko) Version/17.4 Mobile/15E148 Safari/604.1",
            "Mozilla/5.0 (iPhone; CPU iPhone OS 16_7 like Mac OS X) AppleWebKit/605.1.15 (KHTML, like Gecko) CriOS/126.0.6478.153 Mobile/15E148 Safari/604.1",
            "Mozilla/5.0 (iPhone; CPU iPhone OS 17_0 like Mac OS X) AppleWebKit/605.1.15 (KHTML, like Gecko) Version/17.0 Mobile/15E148 Safari/604.1",
        ],
{
    vec![
        "Mozilla/5.0 (iPhone; CPU iPhone OS 17_5 like Mac OS X) AppleWebKit/605.1.15 (KHTML, like Gecko) Version/17.5 Mobile/15E148 Safari/604.1",
        "Mozilla/5.0 (iPhone; CPU iPhone OS 17_4 like Mac OS X) AppleWebKit/605.1.15 (KHTML, like Gecko) Version/17.4 Mobile/15E148 Safari/604.1",
        "Mozilla/5.0 (iPhone; CPU iPhone OS 16_7 like Mac OS X) AppleWebKit/605.1.15 (KHTML, like Gecko) CriOS/126.0.6478.153 Mobile/15E148 Safari/604.1",
        "Mozilla/5.0 (iPhone; CPU iPhone OS 17_0 like Mac OS X) AppleWebKit/605.1.15 (KHTML, like Gecko) Version/17.0 Mobile/15E148 Safari/604.1",
    ]
}

/// iPhone screens: `(width, height, device pixel ratio in thousandths)`.
pub fn ios_resolutions() -> (res: Vec<(u32, u32, u32)>)
    ensures
        res@ == seq![
                (390u32, 844u32, 3000u32),
                (430, 932, 3000),
                (393, 852, 3000),
                (430, 932, 3000),
                (375, 812, 3000),
                (414, 896, 2000),
            ],
    {
        vec![(390, 844, 3000), (430, 932, 3000), (393, 852, 3000), (430, 932, 3000), (375, 812, 3000), (414, 896, 2000)]
    }

    /// Android phone user agents.
    pub fn android_uas() -> (res: Vec<&'static str>)
        ensures
            res@ == seq![
            "Mozilla/5.0 (Linux; Android 14; Pixel 8) AppleWebKit/537.36 (KHTML, like Gecko) Chrome/128.0.6613.88 Mobile Safari/537.36",
            "Mozilla/5.0 (Linux; Android 14; Pixel 8 Pro) AppleWebKit/537.36 (KHTML, like Gecko) Chrome/127.0.6533.103 Mobile Safari/537.36",
            "Mozilla/5.0 (Linux; Android 14; SM-S928B) AppleWebKit/537.36 (KHTML, like Gecko) Chrome/126.0.6478.182 Mobile Safari/537.36",
            "Mozilla/5.0 (Linux; Android 13; SM-A546B) AppleWebKit/537.36 (KHTML, like Gecko) Chrome/126.0.6478.183 Mobile Safari/537.36",
            "Mozilla/5.0 (Linux; Android 14; OnePlus 12) AppleWebKit/537.36 (KHTML, like Gecko) Chrome/127.0.6533.84 Mobile Safari/537.36",
        ],
{
    vec![
        "Mozilla/5.0 (Linux; Android 14; Pixel 8) AppleWebKit/537.36 (KHTML, like Gecko) Chrome/128.0.6613.88 Mobile Safari/537.36",
        "Mozilla/5.0 (Linux; Android 14; Pixel 8 Pro) AppleWebKit/537.36 (KHTML, like Gecko) Chrome/127.0.6533.103 Mobile Safari/537.36",
        "Mozilla/5.0 (Linux; Android 14; SM-S928B) AppleWebKit/537.36 (KHTML, like Gecko) Chrome/126.0.6478.182 Mobile Safari/537.36",
        "Mozilla/5.0 (Linux; Android 13; SM-A546B) AppleWebKit/537.36 (KHTML, like Gecko) Chrome/126.0.6478.183 Mobile Safari/537.36",
        "Mozilla/5.0 (Linux; Android 14; OnePlus 12) AppleWebKit/537.36 (KHTML, like Gecko) Chrome/127.0.6533.84 Mobile Safari/537.36",
    ]
}

/// Android phone screens: `(width, height, device pixel ratio in
/// thousandths)`.
pub fn android_resolutions() -> (res: Vec<(u32, u32, u32)>)
    ensures
        res@ == seq![
                (393u32, 873u32, 2750u32),
                (412, 915, 2625),
                (360, 780, 3000),
                (390, 844, 2000),
                (411, 869, 2625),
            ],
    {
        vec![(393, 873, 2750), (412, 915, 2625), (360, 780, 3000), (390, 844, 2000), (411, 869, 2625)]
    }

    /// Mobile WebGL vendors.
    pub fn mobile_webgl_vendors() -> (res: Vec<&'static str>)
        ensures
            res@ == seq!["Qualcomm", "ARM", "Imagination Technologies"],
    {
        vec!["Qualcomm", "ARM", "Imagination Technologies"]
    }

    /// Mobile WebGL renderers.
    pub fn mobile_webgl_renderers() -> (res: Vec<&'static str>)
        ensures
            res@ == seq![
            "Adreno (TM) 750",
            "Adreno (TM) 740",
            "Adreno (TM) 650",
            "Mali-G715 MC11",
            "Mali-G76 MC4",
            "PowerVR B-Series BXM-8-256",
        ],
{
    vec![
        "Adreno (TM) 750",
        "Adreno (TM) 740",
        "Adreno (TM) 650",
        "Mali-G715 MC11",
        "Mali-G76 MC4",
        "PowerVR B-Series BXM-8-256",
    ]
}

/// Common timezones with their UTC offset in minutes.
pub fn desktop_timezones() -> (res: Vec<(&'static str, i32)>)
    ensures
        res@ == seq![
            ("America/New_York", -300i32),
            ("America/Chicago", -360i32),
            ("America/Denver", -420i32),
            ("America/Los_Angeles", -480i32),
            ("America/Toronto", -300i32),
            ("America/Vancouver", -480i32),
            ("America/Sao_Paulo", -180i32),
            ("Europe/London", 0i32),
            ("Europe/Paris", 60i32),
            ("Europe/Berlin", 60i32),
            ("Europe/Madrid", 60i32),
            ("Europe/Amsterdam", 60i32),
            ("Europe/Warsaw", 60i32),
            ("Europe/Moscow", 180i32),
            ("Asia/Kolkata", 330i32),
            ("Asia/Singapore", 480i32),
            ("Asia/Tokyo", 540i32),
            ("Asia/Shanghai", 480i32),
            ("Australia/Sydney", 600i32),
        ],
{
    vec![
        ("America/New_York", -300),
        ("America/Chicago", -360),
        ("America/Denver", -420),
        ("America/Los_Angeles", -480),
        ("America/Toronto", -300),
        ("America/Vancouver", -480),
        ("America/Sao_Paulo", -180),
        ("Europe/London", 0),
        ("Europe/Paris", 60),
        ("Europe/Berlin", 60),
        ("Europe/Madrid", 60),
        ("Europe/Amsterdam", 60),
        ("Europe/Warsaw", 60),
        ("Europe/Moscow", 180),
        ("Asia/Kolkata", 330),
        ("Asia/Singapore", 480),
        ("Asia/Tokyo", 540),
        ("Asia/Shanghai", 480),
        ("Australia/Sydney", 600),
    ]
}

/// Language lists as browsers send them, each with a primary locale and
/// its fallbacks.
pub fn language_profiles() -> (res: Vec<Vec<&'static str>>)
    ensures
        res@.map_values(|v: Vec<&'static str>| v@) == seq![
            seq!["en-US", "en"],
            seq!["en-GB", "en"],
            seq!["en-CA", "en"],
            seq!["en-AU", "en"],
            seq!["de-DE", "de", "en-US", "en"],
            seq!["fr-FR", "fr", "en-US", "en"],
            seq!["es-ES", "es", "en-US", "en"],
            seq!["es-MX", "es", "en-US", "en"],
            seq!["pt-BR", "pt", "en-US", "en"],
            seq!["it-IT", "it", "en-US", "en"],
            seq!["nl-NL", "nl", "en-US", "en"],
            seq!["pl-PL", "pl", "en-US", "en"],
            seq!["ja-JP", "ja", "en-US", "en"],
            seq!["zh-CN", "zh", "en-US", "en"],
            seq!["ko-KR", "ko", "en-US", "en"],
            seq!["ru-RU", "ru", "en-US", "en"],
            seq!["ar-SA", "ar", "en-US", "en"],
            seq!["hi-IN", "hi", "en-US", "en"],
        ],
{
    vec![
        vec!["en-US", "en"],
        vec!["en-GB", "en"],
        vec!["en-CA", "en"],
        vec!["en-AU", "en"],
        vec!["de-DE", "de", "en-US", "en"],
        vec!["fr-FR", "fr", "en-US", "en"],
        vec!["es-ES", "es", "en-US", "en"],
        vec!["es-MX", "es", "en-US", "en"],
        vec!["pt-BR", "pt", "en-US", "en"],
        vec!["it-IT", "it", "en-US", "en"],
        vec!["nl-NL", "nl", "en-US", "en"],
        vec!["pl-PL", "pl", "en-US", "en"],
        vec!["ja-JP", "ja", "en-US", "en"],
        vec!["zh-CN", "zh", "en-US", "en"],
        vec!["ko-KR", "ko", "en-US", "en"],
        vec!["ru-RU", "ru", "en-US", "en"],
        vec!["ar-SA", "ar", "en-US", "en"],
        vec!["hi-IN", "hi", "en-US", "en"],
    ]
}

/// The `navigator.platform` of a desktop user agent: `MacIntel` for a Mac
/// one, `Win32` otherwise.
pub fn desktop_platform(ua: &str) -> (res: &'static str)
    ensures
        res@ == if contains_seq(ua@, "Macintosh"@) {
            "MacIntel"@
        } else {
            "Win32"@
        },
{
    if contains_str(ua, "Macintosh") {
        "MacIntel"
    } else {
        "Win32"
    }
}

} // verus!
