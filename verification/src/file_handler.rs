//! The record of the files that were loaded into the store, and the storage
//! figures derived from it. Reading the files is left to the caller.

use std::path::Path;
use vstd::prelude::*;

verus! {

/// A loaded file, as plain mathematical values.
pub struct FileInfoView {
    pub name: Seq<char>,
    pub path: Seq<char>,
    pub size: u64,
    pub content: Seq<u8>,
}

/// A loaded file: its name, the path it was read from, its size in bytes and
/// its content.
#[derive(Debug)]
pub struct FileInfo {
    pub name: String,
    pub path: String,
    pub size: u64,
    pub content: Vec<u8>,
}

impl View for FileInfo {
    type V = FileInfoView;

    open spec fn view(&self) -> FileInfoView {
        FileInfoView { name: self.name@, path: self.path@, size: self.size, content: self.content@ }
    }
}

impl Clone for FileInfo {
    fn clone(&self) -> (copy: Self)
        ensures
            copy@ == self@,
    {
        FileInfo {
            name: self.name.clone(),
            path: self.path.clone(),
            size: self.size,
            content: self.content.clone(),
        }
    }
}

/// The storage figures of a file manager, all in bytes but for the number of
/// files.
#[derive(Debug, Clone, Copy, PartialEq, Eq, Structural)]
pub struct StorageStats {
    pub secondary_total: u64,
    pub secondary_used: u64,
    pub secondary_available: u64,
    pub swap_total: u64,
    pub swap_used: u64,
    pub swap_available: u64,
    pub files_loaded: usize,
    pub total_file_size: u64,
}

/// The files loaded so far and the capacities, in bytes, of the secondary
/// storage and of the swap space.
pub struct FileManager {
    pub loaded_files: Vec<FileInfo>,
    pub secondary_capacity: u64,
    pub swap_capacity: u64,
}

/// The number of bytes in a mebibyte.
pub const BYTES_PER_MB: u64 = 1_048_576;

/// The name given to a file whose path has no final component that is valid
/// text.
pub open spec fn unknown_name() -> Seq<char> {
    "unknown"@
}

/// The state of a file manager, as plain mathematical values.
#[verifier::ext_equal]
pub struct FileManagerView {
    /// The loaded files, in the order in which they were loaded.
    pub files: Seq<FileInfoView>,
    pub secondary_capacity: u64,
    pub swap_capacity: u64,
}

impl View for FileManager {
    type V = FileManagerView;

    open spec fn view(&self) -> FileManagerView {
        FileManagerView {
            files: file_views(self.loaded_files@),
            secondary_capacity: self.secondary_capacity,
            swap_capacity: self.swap_capacity,
        }
    }
}

/// The sizes of `files`, added up.
pub open spec fn total_size(files: Seq<FileInfoView>) -> nat
    decreases files.len(),
{
    if files.len() == 0 {
        0
    } else {
        total_size(files.drop_last()) + files.last().size as nat
    }
}

/// What is left of `capacity` after `used`, and nothing if more is used than
/// there is.
pub open spec fn available(capacity: u64, used: u64) -> u64 {
    if used >= capacity {
        0
    } else {
        (capacity - used) as u64
    }
}

/// The views of `files`, in the same order.
pub open spec fn file_views(files: Seq<FileInfo>) -> Seq<FileInfoView> {
    files.map_values(|f: FileInfo| f@)
}

/// The sizes of the first files of a list add up to no more than those of the
/// whole list.
pub proof fn lemma_total_size_prefix(files: Seq<FileInfoView>, n: int)
    requires
        0 <= n <= files.len(),
    ensures
        total_size(files.take(n)) <= total_size(files),
        n < files.len() ==> total_size(files.take(n + 1)) == total_size(files.take(n))
            + files[n].size,
    decreases files.len() - n,
{
    if n < files.len() {
        assert(files.take(n + 1).drop_last() =~= files.take(n));
        lemma_total_size_prefix(files, n + 1);
    } else {
        assert(files.take(n) =~= files);
    }
}

/// Reads the final component of `file_path` with `Path::file_name` and turns
/// it into text with `OsStr::to_str`; `None` where the path has no such
/// component or it is not valid Unicode. How a path is split into components
/// depends on the platform, so nothing is claimed of the text.
#[verifier::external_body]
fn path_file_name(file_path: &str) -> (name: Option<String>) {
    Path::new(file_path).file_name().and_then(|n| n.to_str()).map(|s| s.to_string())
}

impl FileManager {
    /// A manager without files, with the given capacities in mebibytes.
    pub fn new(secondary_capacity_mb: u64, swap_capacity_mb: u64) -> (m: Self)
        requires
            secondary_capacity_mb * BYTES_PER_MB <= u64::MAX,
            swap_capacity_mb * BYTES_PER_MB <= u64::MAX,
        ensures
            m@ == (FileManagerView {
                files: Seq::empty(),
                secondary_capacity: (secondary_capacity_mb * BYTES_PER_MB) as u64,
                swap_capacity: (swap_capacity_mb * BYTES_PER_MB) as u64,
            }),
    {
        Self {
            loaded_files: Vec::new(),
            secondary_capacity: secondary_capacity_mb * BYTES_PER_MB,
            swap_capacity: swap_capacity_mb * BYTES_PER_MB,
        }
    }

    /// Records a file that was read from `path` under the given name, or
    /// under the name "unknown" where none is given, and returns its record.
    pub fn record_file(&mut self, name: Option<String>, path: String, content: Vec<u8>) -> (info:
        FileInfo)
        ensures
            info@.name == (match name {
                Some(n) => n@,
                None => unknown_name(),
            }),
            info@.path == path@,
            info@.size == content@.len(),
            info@.content == content@,
            final(self)@ == (FileManagerView { files: old(self)@.files.push(info@), ..old(self)@ }),
    {
        let name = match name {
            Some(n) => n,
            None => "unknown".to_owned(),
        };
        let size = content.len() as u64;
        let file_info = FileInfo { name, path, size, content };
        let stored = file_info.clone();
        self.loaded_files.push(stored);
        assert(self@.files =~= old(self)@.files.push(file_info@));
        file_info
    }

    /// Records the content that was read from `file_path`, under the name of
    /// the path's final component.
    pub fn add_file(&mut self, file_path: &str, content: Vec<u8>) -> (info: FileInfo)
        ensures
            info@.path == file_path@,
            info@.size == content@.len(),
            info@.content == content@,
            final(self)@ == (FileManagerView { files: old(self)@.files.push(info@), ..old(self)@ }),
    {
        let name = path_file_name(file_path);
        self.record_file(name, file_path.to_owned(), content)
    }

    /// The outcome of loading several files: the files that were loaded, or
    /// `None` if there is none.
    pub fn loaded_batch(loaded: Vec<FileInfo>) -> (batch: Option<Vec<FileInfo>>)
        ensures
            batch is None <==> loaded@.len() == 0,
            batch matches Some(files) ==> files == loaded,
    {
        if loaded.len() == 0 {
            None
        } else {
            Some(loaded)
        }
    }

    /// The sizes of the loaded files, added up, or `None` if the sum is beyond
    /// what a `u64` holds.
    pub fn checked_total_size(&self) -> (total: Option<u64>)
        ensures
            total is Some <==> total_size(self@.files) <= u64::MAX,
            total matches Some(t) ==> t == total_size(self@.files),
    {
        let mut total_file_size: u64 = 0;
        let n = self.loaded_files.len();
        let mut i: usize = 0;
        while i < n
            invariant
                n == self.loaded_files@.len(),
                i <= n,
                total_file_size == total_size(self@.files.take(i as int)),
            decreases n - i,
        {
            proof {
                lemma_total_size_prefix(self@.files, i as int);
                lemma_total_size_prefix(self@.files, i + 1);
            }
            match total_file_size.checked_add(self.loaded_files[i].size) {
                Some(sum) => {
                    total_file_size = sum;
                },
                None => {
                    return None;
                },
            }
            i += 1;
        }
        proof {
            assert(self@.files.take(n as int) =~= self@.files);
        }
        Some(total_file_size)
    }

    /// The storage figures: the secondary storage is used by the loaded files,
    /// the swap space by `swap_used` bytes.
    pub fn get_storage_stats(&self, swap_used: u64) -> (stats: StorageStats)
        requires
            total_size(self@.files) <= u64::MAX,
        ensures
            stats == (StorageStats {
                secondary_total: self@.secondary_capacity,
                secondary_used: total_size(self@.files) as u64,
                secondary_available: available(
                    self@.secondary_capacity,
                    total_size(self@.files) as u64,
                ),
                swap_total: self@.swap_capacity,
                swap_used,
                swap_available: available(self@.swap_capacity, swap_used),
                files_loaded: self@.files.len() as usize,
                total_file_size: total_size(self@.files) as u64,
            }),
    {
        let total_file_size = match self.checked_total_size() {
            Some(total) => total,
            None => 0,
        };
        let secondary_used = total_file_size;
        let secondary_available = self.secondary_capacity.saturating_sub(secondary_used);
        let swap_available = self.swap_capacity.saturating_sub(swap_used);
        StorageStats {
            secondary_total: self.secondary_capacity,
            secondary_used,
            secondary_available,
            swap_total: self.swap_capacity,
            swap_used,
            swap_available,
            files_loaded: self.loaded_files.len(),
            total_file_size,
        }
    }

    /// The files loaded so far, in the order in which they were loaded.
    pub fn get_loaded_files(&self) -> (files: &Vec<FileInfo>)
        ensures
            files == &self.loaded_files,
    {
        &self.loaded_files
    }

    /// Forgets the loaded files. The capacities stay.
    pub fn clear_files(&mut self)
        ensures
            final(self)@ == (FileManagerView { files: Seq::empty(), ..old(self)@ }),
    {
        self.loaded_files.clear();
    }
}

} // verus!
