//! What the service says of itself.

use crate::config::StreamConfig;
use crate::media::{lossy_text, read_lossy};
use crate::path::{media_extension_list, media_extensions};
use vstd::prelude::*;

verus! {

/// The version of the interface that clients use.
pub const API_VERSION: &'static str = "0.3.0";

/// How files are asked for: by their paths.
pub const MODE: &'static str = "path-stream";

/// What the service is made with.
pub const RUNTIME: &'static str = "rust";

/// The answer to the question whether the service is there.
pub struct Health {
    pub ok: bool,
    pub mode: &'static str,
    pub runtime: &'static str,
    pub data_dir: String,
    pub config: StreamConfig,
}

/// Says that the service is there, where its data is and how it is set.
pub fn health(data_dir: &[u8], config: StreamConfig) -> (r: Health)
    ensures
        r.ok,
        r.mode@ == MODE@,
        r.runtime@ == RUNTIME@,
        r.data_dir@ == lossy_text(data_dir@),
        r.config == config,
{
    Health { ok: true, mode: MODE, runtime: RUNTIME, data_dir: read_lossy(data_dir), config }
}

/// The extensions of audio files.
pub open spec fn audio_extension_list() -> Seq<Seq<char>> {
    seq!["aac"@, "flac"@, "m4a"@, "mp3"@, "ogg"@, "opus"@, "wav"@, "webm"@]
}

/// The extensions of audio files.
pub fn audio_extensions() -> (r: Vec<&'static str>)
    ensures
        r@.map_values(|s: &str| s@) == audio_extension_list(),
{
    vec!["aac", "flac", "m4a", "mp3", "ogg", "opus", "wav", "webm"]
}

/// The extensions of video files.
pub open spec fn video_extension_list() -> Seq<Seq<char>> {
    seq!["m4v"@, "mkv"@, "mov"@, "mp4"@, "webm"@]
}

/// The extensions of video files.
pub fn video_extensions() -> (r: Vec<&'static str>)
    ensures
        r@.map_values(|s: &str| s@) == video_extension_list(),
{
    vec!["m4v", "mkv", "mov", "mp4", "webm"]
}

/// What the service streams is audio or video, and it streams all that it calls
/// so.
pub proof fn law_media_is_audio_or_video(ext: Seq<char>)
    ensures
        media_extension_list().contains(ext) <==> audio_extension_list().contains(ext)
            || video_extension_list().contains(ext),
{
    let m = media_extension_list();
    let a = audio_extension_list();
    let v = video_extension_list();
    if m.contains(ext) {
        let i = choose|i: int| 0 <= i < m.len() && m[i] == ext;
        if i < 8 {
            assert(a[i] == ext);
        } else {
            assert(v[i - 8] == ext);
        }
    }
    if a.contains(ext) {
        let i = choose|i: int| 0 <= i < a.len() && a[i] == ext;
        assert(m[i] == ext);
    }
    if v.contains(ext) {
        let i = choose|i: int| 0 <= i < v.len() && v[i] == ext;
        if i < 4 {
            assert(m[i + 8] == ext);
        } else {
            assert(m[7] == ext);
        }
    }
}

/// Where the parts of the service are found.
pub struct Endpoints {
    pub stream: &'static str,
    pub meta: &'static str,
    pub stats: &'static str,
    pub reset_stats: &'static str,
    pub upload: &'static str,
    pub demo_files: &'static str,
}

/// How the service is used and set.
pub struct ConfigReport {
    pub api_version: &'static str,
    pub mode: &'static str,
    pub runtime: &'static str,
    pub config: StreamConfig,
    pub media_extensions: Vec<&'static str>,
    pub audio_extensions: Vec<&'static str>,
    pub video_extensions: Vec<&'static str>,
    pub endpoints: Endpoints,
}

/// Says how the service is used and set.
pub fn config(settings: StreamConfig) -> (r: ConfigReport)
    ensures
        r.api_version@ == API_VERSION@,
        r.mode@ == MODE@,
        r.runtime@ == RUNTIME@,
        r.config == settings,
        r.media_extensions@.map_values(|s: &str| s@) == media_extension_list(),
        r.audio_extensions@.map_values(|s: &str| s@) == audio_extension_list(),
        r.video_extensions@.map_values(|s: &str| s@) == video_extension_list(),
        r.endpoints.stream@ == "/api/stream/{base64urlPath}"@,
        r.endpoints.meta@ == "/api/meta/{base64urlPath}"@,
        r.endpoints.stats@ == "/api/stats"@,
        r.endpoints.reset_stats@ == "/api/stats/reset"@,
        r.endpoints.upload@ == "/api/upload"@,
        r.endpoints.demo_files@ == "/api/files"@,
{
    ConfigReport {
        api_version: API_VERSION,
        mode: MODE,
        runtime: RUNTIME,
        config: settings,
        media_extensions: media_extensions(),
        audio_extensions: audio_extensions(),
        video_extensions: video_extensions(),
        endpoints: Endpoints {
            stream: "/api/stream/{base64urlPath}",
            meta: "/api/meta/{base64urlPath}",
            stats: "/api/stats",
            reset_stats: "/api/stats/reset",
            upload: "/api/upload",
            demo_files: "/api/files",
        },
    }
}

} // verus!
