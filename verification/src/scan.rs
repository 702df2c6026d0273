//! Finding the audio files in a snapshot of a directory tree.

use vstd::prelude::*;
use crate::name_order::{place_name, Placement};
use crate::text::{extension_of, get_maybe_extension_string, lowercase_of};

verus! {

/// The container formats whose tags the library reads.
#[derive(Clone, Copy, Debug, PartialEq, Eq, Structural)]
pub enum AudioFormat {
    Flac,
    Mp3,
}

/// A file as it was read: where it is, and its bytes.
#[derive(Clone, Debug)]
pub struct SourceFile {
    pub path: String,
    pub contents: Vec<u8>,
}

/// A snapshot of a directory tree: a file, or a directory with its entries
/// in the order in which they were listed.
#[derive(Debug)]
pub enum DirTree {
    File(SourceFile),
    Directory(Vec<DirTree>),
}

/// The format that the lower-case extension `extension` names.
pub open spec fn format_named(extension: Seq<char>) -> Option<AudioFormat> {
    if extension == "flac"@ {
        Some(AudioFormat::Flac)
    } else if extension == "mp3"@ {
        Some(AudioFormat::Mp3)
    } else {
        None
    }
}

/// The format of the file at `path`, told by its extension whatever its
/// case. A path without an extension, or with another one, has none.
pub open spec fn format_of(path: Seq<char>) -> Option<AudioFormat> {
    match extension_of(path) {
        Some(e) => format_named(lowercase_of(e)),
        None => None,
    }
}

/// The file is one that the library reads.
pub open spec fn is_music(file: SourceFile) -> bool {
    format_of(file.path@) is Some
}

/// Every file of the tree, at any depth, in the order of a walk that takes
/// the entries of each directory as they stand.
pub open spec fn files_of(tree: DirTree) -> Seq<SourceFile>
    decreases tree, 0nat,
{
    match tree {
        DirTree::File(f) => seq![f],
        DirTree::Directory(entries) => files_among(entries, entries@.len()),
    }
}

/// Every file under the first `n` of `entries`.
pub open spec fn files_among(entries: Vec<DirTree>, n: nat) -> Seq<SourceFile>
    decreases entries, n,
{
    if n == 0 || n > entries@.len() {
        Seq::empty()
    } else {
        files_among(entries, (n - 1) as nat) + files_of(entries@[n - 1])
    }
}

/// The files of the tree that the library reads, in walk order.
pub open spec fn music_files(tree: DirTree) -> Seq<SourceFile> {
    files_of(tree).filter(|f: SourceFile| is_music(f))
}

/// The files that the references of `found` point to.
pub open spec fn pointed(found: Seq<&SourceFile>) -> Seq<SourceFile> {
    Seq::new(found.len(), |i: int| *found[i])
}

/// A file is among the music files of a tree exactly when it is a file of
/// the tree, at whatever depth, and its extension names a supported format.
pub proof fn lemma_music_files_exact(tree: DirTree, file: SourceFile)
    ensures
        music_files(tree).contains(file) <==> files_of(tree).contains(file) && is_music(file),
{
    broadcast use vstd::seq_lib::group_filter_ensures;

    let keep = |f: SourceFile| is_music(f);
    let all = files_of(tree);
    if music_files(tree).contains(file) {
        all.lemma_filter_contains_rev(keep, file);
        let i = choose|i: int| 0 <= i < all.filter(keep).len() && all.filter(keep)[i] == file;
        assert(keep(all.filter(keep)[i]));
    }
    if all.contains(file) && is_music(file) {
        let i = choose|i: int| 0 <= i < all.len() && all[i] == file;
        assert(keep(all[i]));
    }
}

/// Tells the format that the lower-case extension `extension` names.
pub fn format_of_extension(extension: &str) -> (format: Option<AudioFormat>)
    ensures
        format == format_named(extension@),
{
    if place_name(extension, "flac") == Placement::Same {
        Some(AudioFormat::Flac)
    } else if place_name(extension, "mp3") == Placement::Same {
        Some(AudioFormat::Mp3)
    } else {
        None
    }
}

/// Tells the format of the file at `path`.
pub fn audio_format(path: &str) -> (format: Option<AudioFormat>)
    ensures
        format == format_of(path@),
{
    match get_maybe_extension_string(path) {
        Some(extension) => format_of_extension(extension.as_str()),
        None => None,
    }
}

/// Adds to `found` the files under `tree` that the library reads.
fn collect_music_files<'a>(tree: &'a DirTree, found: &mut Vec<&'a SourceFile>)
    ensures
        pointed(final(found)@) == pointed(old(found)@) + music_files(*tree),
    decreases tree, 0nat,
{
    let ghost keep = |f: SourceFile| is_music(f);
    match tree {
        DirTree::File(file) => {
            proof {
                reveal_with_fuel(Seq::filter, 2);
                assert(seq![*file].drop_last() =~= Seq::<SourceFile>::empty());
                assert(Seq::<SourceFile>::empty().filter(keep) =~= Seq::<SourceFile>::empty());
            }
            if audio_format(file.path.as_str()).is_some() {
                found.push(file);
                assert(music_files(*tree) =~= seq![*file]);
                assert(pointed(found@) =~= pointed(old(found)@) + seq![*file]);
            } else {
                assert(music_files(*tree) =~= Seq::<SourceFile>::empty());
                assert(pointed(found@) =~= pointed(old(found)@) + Seq::<SourceFile>::empty());
            }
        },
        DirTree::Directory(entries) => {
            collect_among(entries, found);
        },
    }
}

/// Adds to `found` the files under `entries` that the library reads.
fn collect_among<'a>(entries: &'a Vec<DirTree>, found: &mut Vec<&'a SourceFile>)
    ensures
        pointed(final(found)@) == pointed(old(found)@) + files_among(
            *entries,
            entries@.len(),
        ).filter(|f: SourceFile| is_music(f)),
    decreases entries, 1nat,
{
    broadcast use Seq::filter_distributes_over_add;

    let ghost keep = |f: SourceFile| is_music(f);
    let mut i: usize = 0;
    proof {
        reveal(Seq::filter);
        assert(pointed(found@) =~= pointed(old(found)@) + Seq::<SourceFile>::empty());
    }
    while i < entries.len()
        invariant
            i <= entries@.len(),
            pointed(found@) == pointed(old(found)@) + files_among(*entries, i as nat).filter(keep),
            keep == |f: SourceFile| is_music(f),
        decreases entries@.len() - i,
    {
        let ghost done = files_among(*entries, i as nat);
        let ghost next = files_of(entries@[i as int]);
        proof {
            vstd::std_specs::vec::axiom_vec_index_decreases(*entries, i as int);
        }
        collect_music_files(&entries[i], found);
        proof {
            assert(pointed(found@) =~= pointed(old(found)@) + (done.filter(keep) + next.filter(
                keep,
            )));
        }
        i += 1;
    }
}

/// The files under `root`, at any depth, whose extension names a supported
/// format whatever its case; no other file, and each in walk order.
pub fn find_music_files<'a>(root: &'a DirTree) -> (found: Vec<&'a SourceFile>)
    ensures
        pointed(found@) == music_files(*root),
        forall|i: int| 0 <= i < found@.len() ==> is_music(*#[trigger] found@[i]),
{
    let mut found: Vec<&'a SourceFile> = Vec::new();
    collect_music_files(root, &mut found);
    assert(pointed(found@) =~= music_files(*root));
    assert forall|i: int| 0 <= i < found@.len() implies is_music(*#[trigger] found@[i]) by {
        lemma_music_files_exact(*root, *found@[i]);
        assert(pointed(found@)[i] == *found@[i]);
    }
    found
}

} // verus!
