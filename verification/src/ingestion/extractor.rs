//! The decisions of an extraction: for each entry of an archive, whether it
//! becomes a directory or a file, and where; and when the extraction is
//! given up, because an entry would be expanded outside the working
//! directory or the whole would grow too large.

use vstd::prelude::*;
use vstd::string::StringExecFns;
use crate::error::AppError;
use crate::text::{chars_of, chars_views, ends_with, has_suffix, pieces, split_on};

verus! {

/// The most that one archive may expand to: 5 GB.
pub const SINGLE_ARCHIVE_CAP: u64 = 5_368_709_120;

/// The most that a group of archive parts may expand to: 500 GB.
pub const MULTI_PART_CAP: u64 = 536_870_912_000;

/// The cap for an export of `parts` archive parts.
pub open spec fn cap_for(parts: nat) -> u64 {
    if parts <= 1 {
        SINGLE_ARCHIVE_CAP
    } else {
        MULTI_PART_CAP
    }
}

/// The depth below the working directory at which a walk along
/// `components` ends: `..` goes up, an empty component or `.` stays, any
/// other goes down. `None` where the walk leaves the working directory at
/// any point.
pub open spec fn depth_after(components: Seq<Seq<char>>) -> Option<nat>
    decreases components.len(),
{
    if components.len() == 0 {
        Some(0)
    } else {
        match depth_after(components.drop_last()) {
            None => None,
            Some(d) => {
                let c = components.last();
                if c == ".."@ {
                    if d == 0 {
                        None
                    } else {
                        Some((d - 1) as nat)
                    }
                } else if c.len() == 0 || c == "."@ {
                    Some(d)
                } else {
                    Some(d + 1)
                }
            },
        }
    }
}

/// The relative path never leaves the directory it is resolved in: it is
/// not empty, not absolute, and no prefix of it goes above its start.
pub open spec fn stays_inside(rel: Seq<char>) -> bool {
    rel.len() > 0 && rel[0] != '/' && depth_after(pieces(rel, "/"@)) is Some
}

/// Decides `stays_inside`.
pub fn is_enclosed(rel: &str) -> (r: bool)
    ensures
        r == stays_inside(rel@),
{
    proof {
        reveal_strlit("/");
        reveal_strlit("..");
        reveal_strlit(".");
    }
    let chars = chars_of(rel);
    if chars.len() == 0 || chars[0] == '/' {
        return false;
    }
    let slash = chars_of("/");
    let components = split_on(&chars, &slash);
    let mut depth: usize = 0;
    let mut i: usize = 0;
    assert(chars_views(components@).take(0) =~= Seq::<Seq<char>>::empty());
    while i < components.len()
        invariant
            i <= components@.len(),
            depth <= i,
            rel@.len() > 0 && rel@[0] != '/',
            chars_views(components@) == pieces(rel@, "/"@),
            depth_after(chars_views(components@).take(i as int)) == Some(depth as nat),
        decreases components@.len() - i,
    {
        let ghost upto = chars_views(components@).take(i + 1);
        assert(upto.drop_last() =~= chars_views(components@).take(i as int));
        assert(upto.last() == components@[i as int]@);
        let c = &components[i];
        let ghost cv = c@;
        let is_up = c.len() == 2 && c[0] == '.' && c[1] == '.';
        let is_here = c.len() == 0 || (c.len() == 1 && c[0] == '.');
        assert(is_up == (cv == ".."@)) by {
            reveal_strlit("..");
            if is_up {
                assert(cv =~= ".."@);
            }
        }
        assert(is_here == (cv.len() == 0 || cv == "."@)) by {
            reveal_strlit(".");
            if c.len() == 1 && c[0] == '.' {
                assert(cv =~= "."@);
            }
        }
        if is_up {
            if depth == 0 {
                proof {
                    assert(depth_after(upto) is None);
                    lemma_escape_is_final(chars_views(components@), i + 1);
                }
                return false;
            }
            depth -= 1;
        } else if !is_here {
            depth += 1;
        }
        i += 1;
    }
    assert(chars_views(components@).take(components@.len() as int) =~= chars_views(components@));
    true
}

/// A walk that has left the working directory stays outside, whatever
/// follows.
pub proof fn lemma_escape_is_final(components: Seq<Seq<char>>, n: int)
    requires
        0 <= n <= components.len(),
        depth_after(components.take(n)) is None,
    ensures
        depth_after(components) is None,
    decreases components.len() - n,
{
    if n < components.len() {
        assert(components.take(n + 1).drop_last() =~= components.take(n));
        lemma_escape_is_final(components, n + 1);
    } else {
        assert(components.take(n) =~= components);
    }
}

/// What an archive says of one of its entries.
#[derive(Debug)]
pub struct ArchiveEntry {
    /// The entry's name as stored; a directory's name ends with `/`.
    pub name: String,
    /// The entry's size when expanded.
    pub size: u64,
    /// The entry's name as a relative path, where the archive reader takes
    /// it for one that stays inside the directory it is expanded in.
    pub enclosed_name: Option<String>,
}

/// What is done for an entry.
#[derive(Debug)]
pub enum EntryAction {
    /// The directory at this path is created.
    CreateDir(String),
    /// The file at this path is written, its parent directories first.
    WriteFile(String),
}

/// The running totals of an extraction.
#[derive(Debug, Clone, Copy, PartialEq, Eq, Structural)]
pub struct ExtractionState {
    /// The sum of the sizes of the entries seen.
    pub total_bytes: u64,
    /// The number of files written.
    pub files_written: u64,
    /// The most that `total_bytes` may come to.
    pub cap: u64,
}

impl ExtractionState {
    /// The totals are within the cap.
    pub open spec fn is_valid(self) -> bool {
        self.total_bytes <= self.cap
    }
}

/// `rel` resolved in the directory `base`.
pub open spec fn joined(base: Seq<char>, rel: Seq<char>) -> Seq<char> {
    if ends_with(base, "/"@) {
        base + rel
    } else {
        base + "/"@ + rel
    }
}

/// Resolves `rel` in the directory `base`.
pub fn join_path(base: &str, rel: &str) -> (r: String)
    ensures
        r@ == joined(base@, rel@),
{
    proof {
        reveal_strlit("/");
    }
    let base_chars = chars_of(base);
    let slash = chars_of("/");
    if has_suffix(&base_chars, &slash) {
        String::from_str(base).concat(rel)
    } else {
        String::from_str(base).concat("/").concat(rel)
    }
}

/// The entry may be expanded inside the working directory, and this is its
/// relative path there.
pub open spec fn safe_name(entry: ArchiveEntry) -> Option<Seq<char>> {
    match entry.enclosed_name {
        Some(rel) => if stays_inside(rel@) {
            Some(rel@)
        } else {
            None
        },
        None => None,
    }
}

/// The totals after an entry has been taken in; none where the entry
/// ends the extraction: its name may not be expanded inside the working
/// directory, or it would take the total past the cap.
pub open spec fn stepped(state: ExtractionState, entry: ArchiveEntry) -> Option<ExtractionState> {
    if safe_name(entry) is None || state.total_bytes + entry.size > state.cap {
        None
    } else {
        Some(
            ExtractionState {
                total_bytes: (state.total_bytes + entry.size) as u64,
                files_written: if !ends_with(entry.name@, "/"@) && state.files_written < u64::MAX {
                    (state.files_written + 1) as u64
                } else {
                    state.files_written
                },
                cap: state.cap,
            },
        )
    }
}

/// The totals after the entries have been taken in, in order; none where
/// the extraction is given up on the way.
pub open spec fn extracted(state: ExtractionState, entries: Seq<ArchiveEntry>) -> Option<
    ExtractionState,
>
    decreases entries.len(),
{
    if entries.len() == 0 {
        Some(state)
    } else {
        match extracted(state, entries.drop_last()) {
            Some(before) => stepped(before, entries.last()),
            None => None,
        }
    }
}

/// The sum of the sizes of the entries.
pub open spec fn total_size(entries: Seq<ArchiveEntry>) -> nat
    decreases entries.len(),
{
    if entries.len() == 0 {
        0
    } else {
        total_size(entries.drop_last()) + entries.last().size as nat
    }
}

/// However many entries are taken in, the total stays within the cap: an
/// extraction that is not given up has counted the sizes of all its
/// entries, their sum is within the cap, and every one of them may be
/// expanded inside the working directory.
pub proof fn lemma_total_within_cap(state: ExtractionState, entries: Seq<ArchiveEntry>)
    requires
        state.is_valid(),
    ensures
        extracted(state, entries) matches Some(after) ==> {
            &&& after.is_valid()
            &&& after.cap == state.cap
            &&& after.total_bytes == state.total_bytes + total_size(entries)
            &&& forall|i: int| 0 <= i < entries.len() ==> safe_name(#[trigger] entries[i]) is Some
        },
    decreases entries.len(),
{
    if entries.len() > 0 {
        lemma_total_within_cap(state, entries.drop_last());
        if extracted(state, entries) is Some {
            assert forall|i: int| 0 <= i < entries.len() implies safe_name(
                #[trigger] entries[i],
            ) is Some by {
                if i < entries.len() - 1 {
                    assert(entries.drop_last()[i] == entries[i]);
                }
            }
        }
    }
}

/// One entry that may not be expanded inside the working directory ends
/// the extraction, wherever among the entries it stands.
pub proof fn lemma_unsafe_entry_is_fatal(
    state: ExtractionState,
    entries: Seq<ArchiveEntry>,
    i: int,
)
    requires
        state.is_valid(),
        0 <= i < entries.len(),
        safe_name(entries[i]) is None,
    ensures
        extracted(state, entries) is None,
{
    lemma_total_within_cap(state, entries);
}

pub struct ZipExtractor;

impl ZipExtractor {
    /// The totals at the start of the extraction of `parts` archive parts.
    pub fn begin(parts: usize) -> (r: ExtractionState)
        ensures
            r == (ExtractionState { total_bytes: 0, files_written: 0, cap: cap_for(parts as nat) }),
            r.is_valid(),
    {
        ExtractionState {
            total_bytes: 0,
            files_written: 0,
            cap: if parts <= 1 {
                SINGLE_ARCHIVE_CAP
            } else {
                MULTI_PART_CAP
            },
        }
    }

    /// The working directory of an export: `target/<export_id>`.
    pub fn working_path(target_dir: &str, export_id: &str) -> (r: String)
        ensures
            r@ == joined(target_dir@, export_id@),
    {
        join_path(target_dir, export_id)
    }

    /// Decides what is done for the next entry of an archive.
    ///
    /// An entry whose name may not be expanded inside the working directory
    /// ends the extraction, and so does one whose size would take the total
    /// past the cap: each fails with a validation error, and the totals stay
    /// as they were. Any other entry is counted; one whose stored name ends
    /// with `/` becomes a directory, and any other becomes a file, each at
    /// its relative path below `working_path`.
    pub fn extract(state: &mut ExtractionState, entry: &ArchiveEntry, working_path: &str) -> (r:
        Result<EntryAction, AppError>)
        requires
            old(state).is_valid(),
        ensures
            final(state).is_valid(),
            final(state).cap == old(state).cap,
            r is Err <==> safe_name(*entry) is None || old(state).total_bytes + entry.size > old(
                state,
            ).cap,
            match r {
                Err(e) => {
                    &&& stepped(*old(state), *entry) is None
                    &&& e is Validation
                    &&& *final(state) == *old(state)
                },
                Ok(action) => {
                    &&& stepped(*old(state), *entry) == Some(*final(state))
                    &&& safe_name(*entry) is Some
                    &&& match action {
                        EntryAction::CreateDir(path) => {
                            &&& path@ == joined(working_path@, safe_name(*entry).unwrap())
                            &&& ends_with(entry.name@, "/"@)
                        },
                        EntryAction::WriteFile(path) => {
                            &&& path@ == joined(working_path@, safe_name(*entry).unwrap())
                            &&& !ends_with(entry.name@, "/"@)
                        },
                    }
                },
            },
    {
        proof {
            reveal_strlit("/");
        }
        let rel = match &entry.enclosed_name {
            Some(rel) => rel,
            None => {
                return Err(
                    AppError::Validation(String::from_str("Archive entry has an unsafe path.")),
                );
            },
        };
        if !is_enclosed(rel.as_str()) {
            return Err(AppError::Validation(String::from_str("Archive entry has an unsafe path.")));
        }
        if entry.size > state.cap - state.total_bytes {
            return Err(
                AppError::Validation(
                    String::from_str("Total extraction would exceed the size limit."),
                ),
            );
        }
        state.total_bytes = state.total_bytes + entry.size;
        let path = join_path(working_path, rel.as_str());
        let name = chars_of(entry.name.as_str());
        let slash = chars_of("/");
        if has_suffix(&name, &slash) {
            Ok(EntryAction::CreateDir(path))
        } else {
            if state.files_written < u64::MAX {
                state.files_written = state.files_written + 1;
            }
            Ok(EntryAction::WriteFile(path))
        }
    }

    /// Whether progress is reported after entry `index` of `total`: at
    /// every hundredth entry and at the last.
    pub fn reports_progress(index: usize, total: usize) -> (r: bool)
        requires
            index < total,
        ensures
            r == (index % 100 == 0 || index == total - 1),
    {
        index % 100 == 0 || index == total - 1
    }

    /// The progress of the whole pipeline, in thousandths, when entry
    /// `index` of `total` of part `part` of `parts` is being expanded:
    /// extraction is the first tenth of the pipeline, shared evenly among
    /// the parts, and within a part among its entries.
    pub fn progress_permille(part: usize, parts: usize, index: usize, total: usize) -> (r: u32)
        requires
            part < parts,
            index < total,
        ensures
            r as int == (100 * part as int + (100 * index as int) / (total as int)) / (parts as int),
            r < 100,
    {
        let within: u128 = (100 * (index as u128)) / (total as u128);
        assert(within < 100) by (nonlinear_arith)
            requires
                within == (100 * index) / (total as int),
                index < total,
        ;
        let r: u128 = (100 * (part as u128) + within) / (parts as u128);
        assert(r < 100) by (nonlinear_arith)
            requires
                r == (100 * part + within) / (parts as int),
                within < 100,
                part < parts,
        ;
        r as u32
    }
}

/// A file is written only below the working directory: the path of an
/// entry that may be expanded begins with the working directory, and what
/// follows never leaves it.
pub proof fn lemma_written_below(entry: ArchiveEntry, working_path: Seq<char>)
    requires
        safe_name(entry) is Some,
    ensures
        starts_with_dir(joined(working_path, safe_name(entry).unwrap()), working_path),
        stays_inside(safe_name(entry).unwrap()),
{
    let path = joined(working_path, safe_name(entry).unwrap());
    assert(path.take(working_path.len() as int) =~= working_path);
}

/// `path` begins with the directory `dir`.
pub open spec fn starts_with_dir(path: Seq<char>, dir: Seq<char>) -> bool {
    dir.len() <= path.len() && path.take(dir.len() as int) == dir
}

} // verus!
