//! The decisions of a download: where a memory is kept, which memories are
//! still to be fetched, and how the state of a memory moves with what
//! happens on the wire.

use vstd::prelude::*;
use vstd::string::StringExecFns;
use crate::models::{DownloadStatus, Memory, MemoryView, Timestamp};
use crate::text::{lowercase, str_eq, to_lowercase};
use crate::timestamps::{format_timestamp, formatted_instant};

verus! {

/// Progress of one download; `permille` is the part of the file that has
/// arrived, in thousandths.
#[derive(Debug)]
pub struct DownloadProgress {
    pub memory_id: String,
    pub permille: u32,
    pub status: String,
    pub bytes_downloaded: u64,
    pub total_bytes: Option<u64>,
}

/// What happens while a memory is fetched.
#[derive(Debug, Clone, Copy, PartialEq, Eq, Structural)]
pub enum DownloadEvent {
    /// The download is about to be requested.
    Begin,
    /// The request failed before any data came.
    RequestFailed,
    /// A chunk of this many bytes arrived and was written.
    Chunk(u64),
    /// The stream broke off.
    ChunkFailed,
    /// The stream ended and the file is flushed.
    Complete,
}

/// What is to be done after an event.
#[derive(Debug, Clone, Copy, PartialEq, Eq, Structural)]
pub struct DownloadStep {
    /// The memory is written to the store.
    pub persist: bool,
    /// Progress is reported, with this many thousandths.
    pub report: Option<u32>,
    /// The download is over.
    pub finished: bool,
}

/// The file extension for a media type: `mp4` for videos, `jpg` for
/// anything else.
pub open spec fn extension_of(media_type: Seq<char>) -> Seq<char> {
    if lowercase(media_type) == "video"@ {
        "mp4"@
    } else {
        "jpg"@
    }
}

/// The status is one from which a download is started.
pub open spec fn is_pending(status: DownloadStatus) -> bool {
    status == DownloadStatus::Pending || status == DownloadStatus::Failed
}

/// The positions of the memories that are still to be fetched, in order.
pub open spec fn pending_of(memories: Seq<Memory>) -> Seq<int>
    decreases memories.len(),
{
    if memories.len() == 0 {
        seq![]
    } else if is_pending(memories.last().download_status) {
        pending_of(memories.drop_last()).push(memories.len() - 1)
    } else {
        pending_of(memories.drop_last())
    }
}

/// The part of `total` that `bytes` are, in thousandths, and at most 1000.
pub open spec fn permille_of(bytes: u64, total: u64) -> int {
    if total == 0 || bytes >= total {
        1000
    } else {
        (bytes as int * 1000) / (total as int)
    }
}

/// The path at which a memory is kept below `root`:
/// `<root>/Memories/<YYYY>/<MM>/<id>.<ext>`, by the year and month of its
/// instant; none where the instant cannot be written.
pub open spec fn target_of(root: Seq<char>, m: MemoryView) -> Option<Seq<char>> {
    match (formatted_instant(m.timestamp, "%Y"@), formatted_instant(m.timestamp, "%m"@)) {
        (Some(year), Some(month)) => Some(
            root + "/Memories/"@ + year + "/"@ + month + "/"@ + m.id + "."@ + extension_of(
                m.media_type,
            ),
        ),
        _ => None,
    }
}

/// The directory in which a memory is kept below `root`.
pub open spec fn target_dir_of(root: Seq<char>, at: Timestamp) -> Option<Seq<char>> {
    match (formatted_instant(at, "%Y"@), formatted_instant(at, "%m"@)) {
        (Some(year), Some(month)) => Some(root + "/Memories/"@ + year + "/"@ + month),
        _ => None,
    }
}

pub struct MemoryDownloader;

impl MemoryDownloader {
    /// The file extension for a media type.
    pub fn extension_for(media_type: &str) -> (r: &'static str)
        ensures
            r@ == extension_of(media_type@),
    {
        let lower = to_lowercase(media_type);
        if str_eq(lower.as_str(), "video") {
            "mp4"
        } else {
            "jpg"
        }
    }

    /// The directory in which a memory of the instant `at` is kept.
    pub fn target_dir(storage_root: &str, at: Timestamp) -> (r: Option<String>)
        ensures
            r.deep_view() == target_dir_of(storage_root@, at),
    {
        let year = format_timestamp(at, "%Y");
        let month = format_timestamp(at, "%m");
        match (year, month) {
            (Some(y), Some(m)) => Some(
                String::from_str(storage_root).concat("/Memories/").concat(y.as_str()).concat(
                    "/",
                ).concat(m.as_str()),
            ),
            _ => None,
        }
    }

    /// The path at which a memory is kept.
    pub fn target_path(storage_root: &str, memory: &Memory) -> (r: Option<String>)
        ensures
            r.deep_view() == target_of(storage_root@, memory@),
    {
        let year = format_timestamp(memory.timestamp, "%Y");
        let month = format_timestamp(memory.timestamp, "%m");
        match (year, month) {
            (Some(y), Some(m)) => Some(
                String::from_str(storage_root).concat("/Memories/").concat(y.as_str()).concat(
                    "/",
                ).concat(m.as_str()).concat("/").concat(memory.id.as_str()).concat(".").concat(
                    Self::extension_for(memory.media_type.as_str()),
                ),
            ),
            _ => None,
        }
    }

    /// Whether a memory of this status is fetched by a batch download.
    pub fn needs_download(status: DownloadStatus) -> (r: bool)
        ensures
            r == is_pending(status),
    {
        match status {
            DownloadStatus::Pending => true,
            DownloadStatus::Failed => true,
            _ => false,
        }
    }

    /// The positions of the memories that a batch download fetches: those
    /// that are pending or have failed, in order.
    pub fn download_all_pending(memories: &Vec<Memory>) -> (r: Vec<usize>)
        ensures
            r@.map_values(|i: usize| i as int) == pending_of(memories@),
    {
        let mut out: Vec<usize> = Vec::new();
        let mut i: usize = 0;
        assert(memories@.take(0) =~= Seq::<Memory>::empty());
        assert(out@.map_values(|i: usize| i as int) =~= Seq::<int>::empty());
        while i < memories.len()
            invariant
                i <= memories@.len(),
                out@.map_values(|k: usize| k as int) == pending_of(memories@.take(i as int)),
            decreases memories@.len() - i,
        {
            let ghost sofar = out@.map_values(|k: usize| k as int);
            assert(memories@.take(i + 1).drop_last() =~= memories@.take(i as int));
            if Self::needs_download(memories[i].download_status) {
                out.push(i);
                assert(out@.map_values(|k: usize| k as int) =~= sofar.push(i as int));
            }
            i += 1;
        }
        assert(memories@.take(memories@.len() as int) =~= memories@);
        out
    }

    /// The part of `total` that `bytes` are, in thousandths.
    pub fn permille(bytes: u64, total: u64) -> (r: u32)
        ensures
            r as int == permille_of(bytes, total),
            r <= 1000,
    {
        if total == 0 || bytes >= total {
            1000
        } else {
            let p: u128 = ((bytes as u128) * 1000) / (total as u128);
            assert(p < 1000) by (nonlinear_arith)
                requires
                    p == (bytes as int * 1000) / (total as int),
                    bytes < total,
            ;
            p as u32
        }
    }

    /// Moves the state of a download with an event.
    ///
    /// At the beginning the memory is marked as downloading and stored. A
    /// failure of the request or of the stream marks it as failed, stores
    /// it and ends the download. A chunk is counted, and reported where the
    /// length of the file is known. The end of the stream marks the memory
    /// as downloaded, sets its path to `target`, stores it, reports the
    /// full file and ends the download.
    pub fn download_memory(
        memory: &mut Memory,
        bytes_downloaded: &mut u64,
        total_bytes: Option<u64>,
        target: &str,
        event: DownloadEvent,
    ) -> (r: DownloadStep)
        ensures
            final(memory)@ == (MemoryView {
                download_status: final(memory).download_status,
                media_path: final(memory)@.media_path,
                ..old(memory)@
            }),
            final(memory).download_status == DownloadStatus::Downloaded
                ==> final(memory)@.media_path is Some,
            match event {
                DownloadEvent::Begin => {
                    &&& final(memory).download_status == DownloadStatus::Downloading
                    &&& final(memory)@.media_path == old(memory)@.media_path
                    &&& *final(bytes_downloaded) == *old(bytes_downloaded)
                    &&& r == (DownloadStep { persist: true, report: None, finished: false })
                },
                DownloadEvent::RequestFailed | DownloadEvent::ChunkFailed => {
                    &&& final(memory).download_status == DownloadStatus::Failed
                    &&& final(memory)@.media_path == old(memory)@.media_path
                    &&& *final(bytes_downloaded) == *old(bytes_downloaded)
                    &&& r == (DownloadStep { persist: true, report: None, finished: true })
                },
                DownloadEvent::Chunk(n) => {
                    &&& final(memory).download_status == DownloadStatus::Downloading
                    &&& final(memory)@.media_path == old(memory)@.media_path
                    &&& *final(bytes_downloaded) == if *old(bytes_downloaded) + n > u64::MAX {
                        u64::MAX
                    } else {
                        (*old(bytes_downloaded) + n) as u64
                    }
                    &&& r.persist == false && r.finished == false
                    &&& match total_bytes {
                        Some(total) => r.report matches Some(p) && p as int == permille_of(
                            *final(bytes_downloaded),
                            total,
                        ),
                        None => r.report is None,
                    }
                },
                DownloadEvent::Complete => {
                    &&& final(memory).download_status == DownloadStatus::Downloaded
                    &&& final(memory)@.media_path == Some(target@)
                    &&& *final(bytes_downloaded) == *old(bytes_downloaded)
                    &&& r == (DownloadStep { persist: true, report: Some(1000u32), finished: true })
                },
            },
    {
        match event {
            DownloadEvent::Begin => {
                memory.download_status = DownloadStatus::Downloading;
                DownloadStep { persist: true, report: None, finished: false }
            },
            DownloadEvent::RequestFailed => {
                memory.download_status = DownloadStatus::Failed;
                DownloadStep { persist: true, report: None, finished: true }
            },
            DownloadEvent::ChunkFailed => {
                memory.download_status = DownloadStatus::Failed;
                DownloadStep { persist: true, report: None, finished: true }
            },
            DownloadEvent::Chunk(n) => {
                memory.download_status = DownloadStatus::Downloading;
                if n > u64::MAX - *bytes_downloaded {
                    *bytes_downloaded = u64::MAX;
                } else {
                    *bytes_downloaded = *bytes_downloaded + n;
                }
                let report = match total_bytes {
                    Some(total) => Some(Self::permille(*bytes_downloaded, total)),
                    None => None,
                };
                DownloadStep { persist: false, report, finished: false }
            },
            DownloadEvent::Complete => {
                memory.download_status = DownloadStatus::Downloaded;
                memory.media_path = Some(String::from_str(target));
                DownloadStep { persist: true, report: Some(1000), finished: true }
            },
        }
    }
}

} // verus!
