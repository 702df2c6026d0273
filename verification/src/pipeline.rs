//! The whole build: from a snapshot of a directory tree to the library.

use vstd::prelude::*;
use crate::error::BuildError;
use crate::library::Library;
use crate::organize::{distinct_slots, first_conflict, organize_tracks, placed};
use crate::parse::{all_yield, first_failure, parse_all_audio_files, records_of};
use crate::scan::{find_music_files, music_files, pointed, DirTree, SourceFile};

verus! {

/// The build of the library from `files` ends well in `library`: the
/// library is well-formed and holds the record of each file at its slot,
/// and nothing else.
pub open spec fn built_from(library: Library, files: Seq<SourceFile>) -> bool {
    &&& library.wf()
    &&& library@ == placed(records_of(files))
    &&& library@.dom().finite()
    &&& library@.len() == files.len()
}

/// The build of the library from `files` ends with the error `e`: it
/// reports the first file that yields no record or, where every file yields
/// one, the first record whose slot an earlier record holds.
pub open spec fn fails_with(e: BuildError, files: Seq<SourceFile>) -> bool {
    ||| exists|n: int| #[trigger] first_failure(files, n, e)
    ||| {
        &&& all_yield(files, files.len() as int)
        &&& exists|i: int, j: int|
            #![trigger first_conflict(records_of(files), i, j)]
            first_conflict(records_of(files), i, j) && e.is_conflict(
                records_of(files)[j].slot(),
                records_of(files)[i].track_title,
            )
    }
}

impl Library {
    /// Builds the library from the directory tree `root`: finds the audio
    /// files, reads the tags of each in walk order, and places the records.
    /// The first file without a record, or else the first record whose slot
    /// is taken, ends the build with its error, and no library is returned.
    pub fn from_library_directory(root: &DirTree) -> (built: Result<Library, BuildError>)
        ensures
            built is Ok <==> all_yield(music_files(*root), music_files(*root).len() as int)
                && distinct_slots(records_of(music_files(*root))),
            match built {
                Ok(library) => built_from(library, music_files(*root)),
                Err(e) => fails_with(e, music_files(*root)),
            },
    {
        let audio_files = find_music_files(root);
        let records = match parse_all_audio_files(&audio_files) {
            Ok(records) => records,
            Err(e) => {
                proof {
                    let n = choose|n: int| #[trigger]
                        first_failure(pointed(audio_files@), n, e);
                    assert(first_failure(pointed(audio_files@), n, e));
                }
                return Err(e);
            },
        };
        organize_tracks(records)
    }
}

} // verus!
