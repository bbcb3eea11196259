//! Named position store: the logic of persisting height presets as files.
//!
//! A preset is one file in a per-user directory: the file's name is the
//! preset's name, its entire content is the height as decimal ASCII text.
//! This module decides what is written, how content reads back, which names
//! are acceptable, and what a directory listing shows; the file system calls
//! themselves live outside the library.
//!
//! The store takes no lock: concurrent invocations racing on the same preset
//! name have last-writer-wins behavior, accepted for a single-user tool.

use vstd::prelude::*;
use crate::decimal::{
    digit_seq, lemma_parse_digit_seq, parse_u16, parse_u16_spec, render_u16,
};

verus! {

/// Why a preset could not be restored. Both are hard errors: the restore
/// aborts and no move is issued.
#[derive(Clone, Copy, PartialEq, Eq, Structural, Debug)]
pub enum RestoreError {
    /// No file of the preset's name exists in the store directory.
    MissingPreset,
    /// The file exists but its content is not a decimal millimeter height.
    InvalidContent,
}

/// The view of a file's content as read, where `None` stands for a file that
/// does not exist.
pub open spec fn content_view(content: Option<Vec<u8>>) -> Option<Seq<u8>> {
    match content {
        Some(v) => Some(v@),
        None => None,
    }
}

/// What restoring yields from the content of the preset's file: the parsed
/// height, or the one hard error that fits.
pub open spec fn decode_preset_spec(content: Option<Seq<u8>>) -> Result<u16, RestoreError> {
    match content {
        None => Err(RestoreError::MissingPreset),
        Some(s) => match parse_u16_spec(s) {
            Some(h) => Ok(h),
            None => Err(RestoreError::InvalidContent),
        },
    }
}

/// Decode a preset file's content into a height in millimeters. Pass `None`
/// when the file was absent. Returns `Ok` exactly when the file exists and
/// its entire content is a decimal integer that fits a millimeter height.
pub fn decode_preset(content: Option<Vec<u8>>) -> (r: Result<u16, RestoreError>)
    ensures
        r == decode_preset_spec(content_view(content)),
{
    match content {
        None => Err(RestoreError::MissingPreset),
        Some(v) => match parse_u16(&v) {
            Some(h) => Ok(h),
            None => Err(RestoreError::InvalidContent),
        },
    }
}

/// Encode a height as the full content of a preset file: its decimal digits,
/// nothing else.
pub fn encode_preset(height_mm: u16) -> (r: Vec<u8>)
    ensures
        r@ == digit_seq(height_mm as nat),
{
    render_u16(height_mm)
}

/// Round trip: a preset saved with height `h` restores to exactly `h`,
/// unchanged, for every millimeter height.
pub proof fn lemma_preset_round_trip(h: u16)
    ensures
        decode_preset_spec(Some(digit_seq(h as nat))) == Result::<u16, RestoreError>::Ok(h),
{
    lemma_parse_digit_seq(h);
}

/// A usable preset name: one non-empty path segment that cannot name the
/// store directory itself, its parent, or anything outside it.
pub open spec fn valid_name_spec(s: Seq<u8>) -> bool {
    &&& s.len() > 0
    &&& s != seq![46u8]
    &&& s != seq![46u8, 46u8]
    &&& forall|i: int|
        0 <= i < s.len() ==> #[trigger] s[i] != 47 && s[i] != 92 && s[i] != 0
}

/// Whether `name` may be used as a preset name: non-empty, not a dot entry,
/// and free of path separators and the NUL byte.
pub fn valid_preset_name(name: &Vec<u8>) -> (r: bool)
    ensures
        r == valid_name_spec(name@),
{
    let n = name.len();
    if n == 0 {
        return false;
    }
    if n == 1 && name[0] == 46 {
        proof {
            assert(name@ =~= seq![46u8]);
        }
        return false;
    }
    if n == 2 && name[0] == 46 && name[1] == 46 {
        proof {
            assert(name@ =~= seq![46u8, 46u8]);
        }
        return false;
    }
    let mut i: usize = 0;
    while i < n
        invariant
            i <= n,
            n == name@.len(),
            forall|j: int| 0 <= j < i ==> #[trigger] name@[j] != 47 && name@[j] != 92 && name@[j] != 0,
        decreases n - i,
    {
        let b = name[i];
        if b == 47 || b == 92 || b == 0 {
            return false;
        }
        i = i + 1;
    }
    proof {
        if name@ == seq![46u8] {
            assert(name@.len() == 1);
        }
        if name@ == seq![46u8, 46u8] {
            assert(name@.len() == 2);
        }
    }
    true
}

/// What a directory enumeration saw at one entry, as plain values.
pub enum DirEntryInfo {
    /// A regular file, with its file name.
    RegularFile { name: Vec<u8> },
    /// An entry that exists but is not a regular file.
    NotAFile,
    /// An entry that could not be read.
    Unreadable,
}

/// The names a listing shows: those of the regular files, in enumeration
/// order.
pub open spec fn visible_names(entries: Seq<DirEntryInfo>) -> Seq<Seq<u8>>
    decreases entries.len(),
{
    if entries.len() == 0 {
        Seq::empty()
    } else {
        let rest = visible_names(entries.drop_first());
        match entries.first() {
            DirEntryInfo::RegularFile { name } => seq![name@] + rest,
            DirEntryInfo::NotAFile => rest,
            DirEntryInfo::Unreadable => rest,
        }
    }
}

/// How many entries of an enumeration could not be read.
pub open spec fn unreadable_count(entries: Seq<DirEntryInfo>) -> nat
    decreases entries.len(),
{
    if entries.len() == 0 {
        0
    } else {
        (match entries.first() {
            DirEntryInfo::Unreadable => 1nat,
            _ => 0nat,
        }) + unreadable_count(entries.drop_first())
    }
}

/// The views of a run of byte strings.
pub open spec fn views_of(v: Seq<Vec<u8>>) -> Seq<Seq<u8>> {
    v.map_values(|x: Vec<u8>| x@)
}

/// Enumerate a directory's entries as the listing does: collect the names of
/// the regular files, in order; skip other entries silently; count, rather
/// than abort on, entries that could not be read — each is a soft error,
/// reported on the side channel while enumeration goes on.
pub fn list_entries(entries: Vec<DirEntryInfo>) -> (r: (Vec<Vec<u8>>, usize))
    ensures
        views_of(r.0@) == visible_names(entries@),
        r.1 == unreadable_count(entries@),
{
    let ghost orig = entries@;
    let mut remaining = entries;
    let total = remaining.len();
    let mut names: Vec<Vec<u8>> = Vec::new();
    let mut errors: usize = 0;
    proof {
        assert(views_of(names@) =~= Seq::<Seq<u8>>::empty());
        assert(views_of(names@) + visible_names(remaining@) =~= visible_names(orig));
    }
    while remaining.len() > 0
        invariant
            views_of(names@) + visible_names(remaining@) == visible_names(orig),
            errors + unreadable_count(remaining@) == unreadable_count(orig),
            total == orig.len(),
            errors <= orig.len() - remaining@.len(),
        decreases remaining@.len(),
    {
        let ghost before = remaining@;
        let e = remaining.remove(0);
        proof {
            assert(remaining@ =~= before.drop_first());
            assert(e == before.first());
        }
        match e {
            DirEntryInfo::RegularFile { name } => {
                let ghost names_before = names@;
                names.push(name);
                proof {
                    assert(views_of(names@) =~= views_of(names_before).push(name@));
                    assert(views_of(names_before).push(name@) + visible_names(remaining@)
                        =~= views_of(names_before) + (seq![name@] + visible_names(remaining@)));
                }
            },
            DirEntryInfo::NotAFile => {},
            DirEntryInfo::Unreadable => {
                errors = errors + 1;
            },
        }
    }
    proof {
        assert(visible_names(remaining@) =~= Seq::<Seq<u8>>::empty());
        assert(views_of(names@) =~= views_of(names@) + visible_names(remaining@));
    }
    (names, errors)
}

} // verus!
