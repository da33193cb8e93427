//! Where downloads are kept: checking the storage path and finding the disk
//! that holds it.

use vstd::prelude::*;
use vstd::string::StringExecFns;
use crate::text::{
    chars_of, decimal, decimal_text, ends_with, has_prefix, has_suffix, path_exists, starts_with,
};

verus! {

#[derive(Debug)]
pub enum StorageError {
    /// No disk holds the path.
    DiskInfoError,
    /// Nothing is at the path.
    PathNotFound(String),
    /// The disk has less room than is needed.
    InsufficientSpace { required: u64, available: u64 },
    /// Anything else, with a message.
    IoError(String),
}

impl StorageError {
    /// The error as one line of text.
    pub open spec fn text(self) -> Seq<char> {
        match self {
            StorageError::DiskInfoError => "Failed to get disk info"@,
            StorageError::PathNotFound(p) => "Path does not exist: "@ + p@,
            StorageError::InsufficientSpace { required, available } => "Not enough space. Required: "@
                + decimal_text(required as int) + " bytes, Available: "@ + decimal_text(
                available as int,
            ) + " bytes"@,
            StorageError::IoError(m) => "IO Error: "@ + m@,
        }
    }

    /// Writes the error as one line of text.
    pub fn message(&self) -> (r: String)
        ensures
            r@ == self.text(),
    {
        match self {
            StorageError::DiskInfoError => String::from_str("Failed to get disk info"),
            StorageError::PathNotFound(p) => String::from_str("Path does not exist: ").concat(
                p.as_str(),
            ),
            StorageError::InsufficientSpace { required, available } => String::from_str(
                "Not enough space. Required: ",
            ).concat(decimal(*required as i128).as_str()).concat(" bytes, Available: ").concat(
                decimal(*available as i128).as_str(),
            ).concat(" bytes"),
            StorageError::IoError(m) => String::from_str("IO Error: ").concat(m.as_str()),
        }
    }
}

/// A disk and the room on it.
#[derive(Debug)]
pub struct DiskSpaceInfo {
    pub available_bytes: u64,
    pub total_bytes: u64,
    pub mount_point: String,
}

/// `std::path::Path::is_dir`: whether a directory is at the path at the
/// time of the call. Nothing is known of the answer.
#[verifier::external_body]
fn path_is_dir(path: &str) -> bool {
    std::path::Path::new(path).is_dir()
}

/// `path` lies on the disk mounted at `mount`: it is the mount point or a
/// path below it.
pub open spec fn is_below(path: Seq<char>, mount: Seq<char>) -> bool {
    ||| path == mount
    ||| (ends_with(mount, "/"@) && starts_with(path, mount))
    ||| starts_with(path, mount + "/"@)
}

/// `i` is the disk that holds `path`: the one with the longest mount point
/// among those that the path lies on, and the last of several such.
pub open spec fn is_best_disk(disks: Seq<DiskSpaceInfo>, path: Seq<char>, i: int) -> bool {
    &&& 0 <= i < disks.len()
    &&& is_below(path, disks[i].mount_point@)
    &&& forall|j: int|
        0 <= j < disks.len() && is_below(path, (#[trigger] disks[j]).mount_point@)
            ==> disks[j].mount_point@.len() <= disks[i].mount_point@.len()
    &&& forall|j: int|
        i < j < disks.len() && is_below(path, (#[trigger] disks[j]).mount_point@)
            ==> disks[j].mount_point@.len() < disks[i].mount_point@.len()
}

pub struct StorageManager;

impl StorageManager {
    /// Decides `is_below`.
    pub fn lies_on(path: &str, mount: &str) -> (r: bool)
        ensures
            r == is_below(path@, mount@),
    {
        proof {
            reveal_strlit("/");
        }
        let p = chars_of(path);
        let m = chars_of(mount);
        let slash = chars_of("/");
        if has_prefix(&p, &m) {
            if p.len() == m.len() {
                assert(p@.take(m@.len() as int) =~= p@);
                return true;
            }
            if has_suffix(&m, &slash) {
                return true;
            }
            let next = p[m.len()];
            let ghost with_slash = m@ + "/"@;
            if next == '/' {
                assert(p@.take(with_slash.len() as int) =~= with_slash);
                true
            } else {
                assert(p@ != m@);
                assert(!starts_with(p@, with_slash)) by {
                    if starts_with(p@, with_slash) {
                        assert(p@.take(with_slash.len() as int)[m@.len() as int] == '/');
                    }
                }
                false
            }
        } else {
            let ghost with_slash = m@ + "/"@;
            assert(!starts_with(p@, with_slash)) by {
                if starts_with(p@, with_slash) {
                    assert(p@.take(m@.len() as int) =~= p@.take(with_slash.len() as int).take(
                        m@.len() as int,
                    ));
                    assert(with_slash.take(m@.len() as int) =~= m@);
                }
            }
            assert(p@ != m@) by {
                if p@ == m@ {
                    assert(p@.take(m@.len() as int) =~= p@);
                }
            }
            false
        }
    }

    /// The disk among `disks` that holds `path`. Fails where the path lies
    /// on none of them.
    pub fn get_disk_space(path: &str, disks: &Vec<DiskSpaceInfo>) -> (r: Result<
        DiskSpaceInfo,
        StorageError,
    >)
        ensures
            match r {
                Ok(d) => exists|i: int|
                    #[trigger] is_best_disk(disks@, path@, i) && d.mount_point@
                        == disks@[i].mount_point@ && d.available_bytes == disks@[i].available_bytes
                        && d.total_bytes == disks@[i].total_bytes,
                Err(e) => e is DiskInfoError && forall|j: int|
                    0 <= j < disks@.len() ==> !is_below(path@, (#[trigger] disks@[j]).mount_point@),
            },
    {
        let mut best: Option<usize> = None;
        let mut best_len: usize = 0;
        let mut i: usize = 0;
        while i < disks.len()
            invariant
                i <= disks@.len(),
                match best {
                    Some(b) => {
                        &&& b < i
                        &&& best_len == disks@[b as int].mount_point@.len()
                        &&& is_below(path@, disks@[b as int].mount_point@)
                        &&& forall|j: int|
                            0 <= j < i && is_below(path@, (#[trigger] disks@[j]).mount_point@)
                                ==> disks@[j].mount_point@.len() <= best_len
                        &&& forall|j: int|
                            b < j < i && is_below(path@, (#[trigger] disks@[j]).mount_point@)
                                ==> disks@[j].mount_point@.len() < best_len
                    },
                    None => forall|j: int|
                        0 <= j < i ==> !is_below(path@, (#[trigger] disks@[j]).mount_point@),
                },
            decreases disks@.len() - i,
        {
            let mount = disks[i].mount_point.as_str();
            if Self::lies_on(path, mount) {
                let len = mount.unicode_len();
                if best.is_none() || len >= best_len {
                    best = Some(i);
                    best_len = len;
                }
            }
            i += 1;
        }
        match best {
            Some(b) => {
                assert(is_best_disk(disks@, path@, b as int));
                Ok(
                    DiskSpaceInfo {
                        available_bytes: disks[b].available_bytes,
                        total_bytes: disks[b].total_bytes,
                        mount_point: disks[b].mount_point.clone(),
                    },
                )
            },
            None => Err(StorageError::DiskInfoError),
        }
    }

    /// What is made of a storage path, given what is at it: a path with
    /// nothing at it is not found, one with something that is no directory
    /// is refused, a directory is accepted.
    pub fn judge_path(path: String, exists: bool, is_dir: bool) -> (r: Result<(), StorageError>)
        ensures
            r is Ok <==> exists && is_dir,
            !exists ==> (r matches Err(StorageError::PathNotFound(p)) && p == path),
            exists && !is_dir ==> (r matches Err(StorageError::IoError(m)) && m@
                == "Path is not a directory"@),
    {
        if !exists {
            return Err(StorageError::PathNotFound(path));
        }
        if !is_dir {
            return Err(StorageError::IoError(String::from_str("Path is not a directory")));
        }
        Ok(())
    }

    /// Checks that the storage path points at a directory, by looking. The
    /// outcome is one of those of `judge_path` for this path.
    pub fn validate_path(path: String) -> (r: Result<(), StorageError>)
        ensures
            match r {
                Ok(()) => true,
                Err(StorageError::PathNotFound(p)) => p == path,
                Err(StorageError::IoError(m)) => m@ == "Path is not a directory"@,
                Err(_) => false,
            },
    {
        let exists = path_exists(path.as_str());
        let is_dir = path_is_dir(path.as_str());
        Self::judge_path(path, exists, is_dir)
    }
}

} // verus!
