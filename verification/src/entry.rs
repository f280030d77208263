//! What a directory listing or a search tells about one entry of the file
//! system.

use vstd::prelude::*;
use crate::text::{decimal, decimal_text};
use crate::timestamp::Timestamp;

verus! {

/// The kind of an entry.
#[derive(Clone, Copy, Debug, PartialEq, Eq, Structural)]
pub enum FileType {
    Folder,
    SymLink,
    File,
}

impl FileType {
    /// The kind of an entry of which the file system says whether it is a
    /// directory, a regular file, or a symbolic link.
    pub open spec fn classified(is_dir: bool, is_file: bool, is_symlink: bool) -> FileType {
        if is_dir {
            FileType::Folder
        } else if is_file {
            FileType::File
        } else {
            FileType::SymLink
        }
    }

    /// Tells the kind of an entry from the answers of the file system. One of
    /// the three must hold: an entry that is none of them has no kind here.
    pub fn from_metadata(is_dir: bool, is_file: bool, is_symlink: bool) -> (kind: FileType)
        requires
            is_dir || is_file || is_symlink,
        ensures
            kind == FileType::classified(is_dir, is_file, is_symlink),
    {
        if is_dir {
            FileType::Folder
        } else if is_file {
            FileType::File
        } else {
            FileType::SymLink
        }
    }

    /// The place of the kind in a listing: folders come first, files last.
    pub open spec fn rank(self) -> int {
        match self {
            FileType::Folder => 0,
            FileType::SymLink => 1,
            FileType::File => 2,
        }
    }
}

/// One entry as the file system described it. A snapshot is never updated:
/// a new listing brings new snapshots.
#[derive(Debug, PartialEq, Eq)]
pub struct FileInfo {
    pub name: String,
    pub file_type: FileType,
    /// The size in bytes.
    pub size: u64,
    /// The number of entries in a folder.
    pub item_count: Option<usize>,
    pub last_modified: Timestamp,
    /// The absolute path, which only the results of a search carry.
    pub full_path: Option<String>,
}

/// A snapshot as a mathematical value.
pub struct FileInfoView {
    pub name: Seq<char>,
    pub file_type: FileType,
    pub size: u64,
    pub item_count: Option<usize>,
    pub last_modified: Timestamp,
    pub full_path: Option<Seq<char>>,
}

impl FileInfoView {
    /// Folders, and only folders, carry a count of their entries, and the
    /// time of the last change is a moment of the calendar.
    pub open spec fn wf(self) -> bool {
        &&& self.item_count is Some <==> self.file_type == FileType::Folder
        &&& self.last_modified.valid()
    }
}

impl View for FileInfo {
    type V = FileInfoView;

    open spec fn view(&self) -> FileInfoView {
        FileInfoView {
            name: self.name@,
            file_type: self.file_type,
            size: self.size,
            item_count: self.item_count,
            last_modified: self.last_modified,
            full_path: match self.full_path {
                Some(path) => Some(path@),
                None => None,
            },
        }
    }
}

impl Clone for FileInfo {
    fn clone(&self) -> (copy: FileInfo)
        ensures
            copy@ == self@,
    {
        let full_path = match &self.full_path {
            Some(path) => Some(path.clone()),
            None => None,
        };
        FileInfo {
            name: self.name.clone(),
            file_type: self.file_type,
            size: self.size,
            item_count: self.item_count,
            last_modified: self.last_modified,
            full_path,
        }
    }
}

/// The text that humansize writes for a size of `size` bytes in its decimal
/// format.
pub uninterp spec fn humansize_decimal(size: u64) -> Seq<char>;

/// `humansize::format_size` with the options `humansize::DECIMAL`: the size in
/// the largest unit of powers of 1000 that it fills, with two decimal places
/// unless the number is whole. The text depends on the size alone.
#[verifier::external_body]
fn format_size(size: u64) -> (text: String)
    ensures
        text@ == humansize_decimal(size),
{
    humansize::format_size(size, humansize::DECIMAL)
}

/// The text for a folder of `count` entries.
pub open spec fn item_count_text(count: nat) -> Seq<char> {
    if count == 0 {
        "Empty"@
    } else if count == 1 {
        decimal(count) + " item"@
    } else {
        decimal(count) + " items"@
    }
}

impl FileInfoView {
    /// The text in the size column: the number of entries for a folder, the
    /// size in bytes for anything else.
    pub open spec fn size_text(self) -> Seq<char> {
        match self.file_type {
            FileType::Folder => item_count_text(self.item_count->0 as nat),
            _ => humansize_decimal(self.size),
        }
    }

    /// The text in the column of the last change, at the moment `now`.
    pub open spec fn last_modified_text(self, now: Timestamp) -> Seq<char> {
        self.last_modified.text_at(now)
    }
}

impl FileInfo {
    /// The snapshot of the entry at `path` with the given name, kind, size,
    /// count of entries and time of the last change. A search result keeps its
    /// path; an entry of a plain listing does not.
    pub fn new(
        name: String,
        file_type: FileType,
        size: u64,
        item_count: Option<usize>,
        last_modified: Timestamp,
        path: String,
        search_result: bool,
    ) -> (info: FileInfo)
        ensures
            info@ == (FileInfoView {
                name: name@,
                file_type,
                size,
                item_count,
                last_modified,
                full_path: if search_result {
                    Some(path@)
                } else {
                    None
                },
            }),
    {
        FileInfo {
            name,
            file_type,
            size,
            item_count,
            last_modified,
            full_path: if search_result {
                Some(path)
            } else {
                None
            },
        }
    }

    /// Whether the snapshot is well formed.
    pub fn is_wf(&self) -> (ok: bool)
        ensures
            ok == self@.wf(),
    {
        let is_folder = match self.file_type {
            FileType::Folder => true,
            _ => false,
        };
        self.item_count.is_some() == is_folder && self.last_modified.is_valid()
    }

    /// The text in the column of the last change, at the moment `now`: the
    /// time of day if the entry was changed on the day of `now`, day and
    /// month if in the same year, and day, month and year otherwise.
    pub fn last_modified_fmt_at(&self, now: &Timestamp) -> (text: String)
        requires
            self@.wf(),
        ensures
            text@ == self@.last_modified_text(*now),
    {
        self.last_modified.format_at(now)
    }

    /// The text in the column of the last change, as it reads now by the local
    /// clock.
    pub fn last_modified_fmt(&self) -> (text: String)
        requires
            self@.wf(),
        ensures
            self@.last_modified.is_written_as(text@),
    {
        self.last_modified.format_now()
    }

    /// The text in the size column: `Empty`, `1 item` or the number of items
    /// for a folder, and the size in bytes, in a unit that fits, for anything
    /// else.
    pub fn size_fmt(&self) -> (text: String)
        requires
            self@.wf(),
        ensures
            text@ == self@.size_text(),
    {
        match self.file_type {
            FileType::Folder => {
                let item_count: usize = self.item_count.unwrap();
                if item_count == 0 {
                    "Empty".to_owned()
                } else if item_count == 1 {
                    let mut text = decimal_text(item_count);
                    text.append(" item");
                    text
                } else {
                    let mut text = decimal_text(item_count);
                    text.append(" items");
                    text
                }
            },
            _ => format_size(self.size),
        }
    }
}

/// The snapshots of a list as mathematical values.
pub open spec fn info_views(entries: Seq<FileInfo>) -> Seq<FileInfoView> {
    Seq::new(entries.len(), |i: int| entries[i]@)
}

/// The entries of the kind `kind`, in their order.
pub open spec fn of_type(entries: Seq<FileInfoView>, kind: FileType) -> Seq<FileInfoView> {
    entries.filter(|e: FileInfoView| e.file_type == kind)
}

/// The entries in the order of a listing: the folders first, then the
/// symbolic links, then the files, and within each kind the order that they
/// came in.
pub open spec fn by_type(entries: Seq<FileInfoView>) -> Seq<FileInfoView> {
    of_type(entries, FileType::Folder) + of_type(entries, FileType::SymLink) + of_type(
        entries,
        FileType::File,
    )
}

/// Puts the entries of a directory in the order of a listing: the folders
/// first, then the symbolic links, then the files. Within each kind the
/// entries keep the order that they came in.
pub fn sort_by_type(entries: Vec<FileInfo>) -> (sorted: Vec<FileInfo>)
    ensures
        info_views(sorted@) == by_type(info_views(entries@)),
{
    let ghost all = info_views(entries@);
    let ghost given = entries@;
    let mut folders: Vec<FileInfo> = Vec::new();
    let mut links: Vec<FileInfo> = Vec::new();
    let mut files: Vec<FileInfo> = Vec::new();
    proof {
        lemma_of_type_empty(all.take(0), FileType::Folder);
        lemma_of_type_empty(all.take(0), FileType::SymLink);
        lemma_of_type_empty(all.take(0), FileType::File);
    }
    for entry in iter: entries
        invariant
            iter.seq() == given,
            all == info_views(given),
            info_views(folders@) =~= of_type(all.take(iter.index()), FileType::Folder),
            info_views(links@) =~= of_type(all.take(iter.index()), FileType::SymLink),
            info_views(files@) =~= of_type(all.take(iter.index()), FileType::File),
    {
        proof {
            let i = iter.index();
            assert(all[i] == entry@);
            assert(all.take(i + 1) =~= all.take(i).push(all[i]));
            all.take(i).lemma_filter_push(
                all[i],
                |e: FileInfoView| e.file_type == FileType::Folder,
            );
            all.take(i).lemma_filter_push(
                all[i],
                |e: FileInfoView| e.file_type == FileType::SymLink,
            );
            all.take(i).lemma_filter_push(all[i], |e: FileInfoView| e.file_type == FileType::File);
        }
        match entry.file_type {
            FileType::Folder => folders.push(entry),
            FileType::SymLink => links.push(entry),
            FileType::File => files.push(entry),
        }
    }
    assert(all.take(all.len() as int) =~= all);
    folders.append(&mut links);
    folders.append(&mut files);
    assert(info_views(folders@) =~= by_type(all));
    folders
}

/// An empty list has no entry of any kind.
proof fn lemma_of_type_empty(entries: Seq<FileInfoView>, kind: FileType)
    requires
        entries.len() == 0,
    ensures
        of_type(entries, kind) =~= Seq::<FileInfoView>::empty(),
{
    entries.lemma_filter_len(|e: FileInfoView| e.file_type == kind);
}

/// A listing in the order of [`by_type`] holds the entries that came in,
/// each as often as it came, and no entry of a later kind stands before one
/// of an earlier kind.
pub proof fn lemma_by_type_is_sorted(entries: Seq<FileInfoView>)
    ensures
        by_type(entries).len() == entries.len(),
        by_type(entries).to_multiset() == entries.to_multiset(),
        forall|i: int, j: int|
            0 <= i < j < by_type(entries).len() ==> by_type(entries)[i].file_type.rank()
                <= by_type(entries)[j].file_type.rank(),
{
    let folders = of_type(entries, FileType::Folder);
    let links = of_type(entries, FileType::SymLink);
    let files = of_type(entries, FileType::File);
    lemma_partition(entries);
    assert forall|i: int, j: int| 0 <= i < j < by_type(entries).len() implies by_type(
        entries,
    )[i].file_type.rank() <= by_type(entries)[j].file_type.rank() by {
        lemma_kind_at(entries, i);
        lemma_kind_at(entries, j);
    }
}

/// The kind of the entry at `i` of a listing in the order of [`by_type`]: a
/// folder in the first part, a symbolic link in the second, a file in the
/// third.
proof fn lemma_kind_at(entries: Seq<FileInfoView>, i: int)
    requires
        0 <= i < by_type(entries).len(),
    ensures
        by_type(entries)[i].file_type == (if i < of_type(entries, FileType::Folder).len() {
            FileType::Folder
        } else if i < of_type(entries, FileType::Folder).len() + of_type(
            entries,
            FileType::SymLink,
        ).len() {
            FileType::SymLink
        } else {
            FileType::File
        }),
{
    let folders = of_type(entries, FileType::Folder);
    let links = of_type(entries, FileType::SymLink);
    let files = of_type(entries, FileType::File);
    if i < folders.len() {
        entries.lemma_filter_pred(|e: FileInfoView| e.file_type == FileType::Folder, i);
        assert(by_type(entries)[i] == folders[i]);
    } else if i < folders.len() + links.len() {
        entries.lemma_filter_pred(
            |e: FileInfoView| e.file_type == FileType::SymLink,
            i - folders.len(),
        );
        assert(by_type(entries)[i] == links[i - folders.len()]);
    } else {
        entries.lemma_filter_pred(
            |e: FileInfoView| e.file_type == FileType::File,
            i - folders.len() - links.len(),
        );
        assert(by_type(entries)[i] == files[i - folders.len() - links.len()]);
    }
}

/// The three kinds part the entries: what the parts hold together is what the
/// list holds.
proof fn lemma_partition(entries: Seq<FileInfoView>)
    ensures
        by_type(entries).len() == entries.len(),
        by_type(entries).to_multiset() == entries.to_multiset(),
    decreases entries.len(),
{
    broadcast use vstd::seq_lib::group_to_multiset_ensures;

    let is_folder = |e: FileInfoView| e.file_type == FileType::Folder;
    let is_link = |e: FileInfoView| e.file_type == FileType::SymLink;
    let is_file = |e: FileInfoView| e.file_type == FileType::File;
    if entries.len() == 0 {
        entries.lemma_filter_len(is_folder);
        entries.lemma_filter_len(is_link);
        entries.lemma_filter_len(is_file);
        assert(by_type(entries) =~= entries);
    } else {
        let front = entries.drop_last();
        let last = entries.last();
        lemma_partition(front);
        assert(front.push(last) =~= entries);
        front.lemma_filter_push(last, is_folder);
        front.lemma_filter_push(last, is_link);
        front.lemma_filter_push(last, is_file);
        let a = of_type(front, FileType::Folder);
        let b = of_type(front, FileType::SymLink);
        let c = of_type(front, FileType::File);
        vstd::seq_lib::lemma_multiset_commutative(a, b);
        vstd::seq_lib::lemma_multiset_commutative(a + b, c);
        match last.file_type {
            FileType::Folder => {
                vstd::seq_lib::lemma_multiset_commutative(a.push(last), b);
                vstd::seq_lib::lemma_multiset_commutative(a.push(last) + b, c);
            },
            FileType::SymLink => {
                vstd::seq_lib::lemma_multiset_commutative(a, b.push(last));
                vstd::seq_lib::lemma_multiset_commutative(a + b.push(last), c);
            },
            FileType::File => {
                vstd::seq_lib::lemma_multiset_commutative(a + b, c.push(last));
            },
        }
        assert(by_type(entries).to_multiset() =~= by_type(front).to_multiset().insert(last));
        assert(entries.to_multiset() =~= front.to_multiset().insert(last));
    }
}

} // verus!
