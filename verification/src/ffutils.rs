//! Locations of the bundled video tools.  Running them and decoding
//! their output belongs to the shell; the paths themselves are plain
//! string arithmetic over the resource directory.

use vstd::prelude::*;

use crate::strutil::join_path;

verus! {

/// Where the bundled `ffmpeg` and `ffprobe` executables live, relative
/// to a resource directory.
pub struct FFmpegHandler {
    pub ffmpeg_path: String,
    pub ffprobe_path: String,
}

impl FFmpegHandler {
    /// Derive both tool paths from the resource directory.
    pub fn new(resource_dir: &str) -> (r: Self)
        ensures
            r.ffmpeg_path@ == resource_dir@ + seq!['/'] + "binaries/windows/ffmpeg.exe"@,
            r.ffprobe_path@ == resource_dir@ + seq!['/'] + "binaries/windows/ffprobe.exe"@,
    {
        FFmpegHandler {
            ffmpeg_path: join_path(resource_dir, "binaries/windows/ffmpeg.exe"),
            ffprobe_path: join_path(resource_dir, "binaries/windows/ffprobe.exe"),
        }
    }
}

} // verus!
