//! The library section of the player's configuration. Reading and writing
//! the configuration file belongs to the caller.

use vstd::prelude::*;

verus! {

/// Where and how the song library is scanned.
#[derive(Debug, Clone, PartialEq, Eq)]
pub struct LibraryConfig {
    /// Directories to scan for songs.
    pub paths: Vec<String>,
    /// Whether the library is rescanned on start.
    pub auto_scan: bool,
    /// File extensions the scan accepts.
    pub file_types: Vec<String>,
}

impl Default for LibraryConfig {
    /// No directories, automatic scanning on, and the stock extension list.
    fn default() -> (r: LibraryConfig)
        ensures
            r.paths@.len() == 0,
            r.auto_scan == true,
            r.file_types.deep_view() =~= seq!["mp3"@, "flac"@, "ogg"@, "wav"@, "m4a"@],
    {
        let mut file_types: Vec<String> = Vec::new();
        file_types.push("mp3".to_owned());
        file_types.push("flac".to_owned());
        file_types.push("ogg".to_owned());
        file_types.push("wav".to_owned());
        file_types.push("m4a".to_owned());
        let r = LibraryConfig { paths: Vec::new(), auto_scan: true, file_types };
        proof {
            assert(r.file_types.deep_view() =~= seq!["mp3"@, "flac"@, "ogg"@, "wav"@, "m4a"@]);
        }
        r
    }
}

} // verus!
