//! The snapshot of a scanned folder: its files in walk order, their total
//! size, and the aggregate counts read off them.
use vstd::prelude::*;
use crate::classify::{file_is_binary, file_verdict, Probe};
use crate::file_info::{FileInfo, FileView};
use crate::text::{push_char, same_text};
use vstd::utf8::{decode_utf8, valid_utf8};

verus! {

/// One regular file met while walking the folder: the names of the
/// directories from the root down to it, its own name, and its size, `None`
/// when its metadata could not be read.
pub struct ScannedFile {
    pub dirs: Vec<String>,
    pub name: String,
    pub size: Option<usize>,
}

/// The views of a sequence of strings.
pub open spec fn names_of(v: Seq<String>) -> Seq<Seq<char>> {
    v.map_values(|s: String| s@)
}

/// The directory names, each followed by `/`.
pub open spec fn dir_prefix(dirs: Seq<Seq<char>>) -> Seq<char>
    decreases dirs.len(),
{
    if dirs.len() == 0 {
        Seq::empty()
    } else {
        dir_prefix(dirs.drop_last()) + dirs.last() + seq!['/']
    }
}

/// The root-relative path of a scanned file.
pub open spec fn relative_path(e: ScannedFile) -> Seq<char> {
    dir_prefix(names_of(e.dirs@)) + e.name@
}

/// Whether one of the directories above a file has an ignored name.
pub open spec fn under_ignored(dirs: Seq<Seq<char>>, ignored: Seq<Seq<char>>) -> bool {
    exists|i: int, j: int|
        0 <= i < dirs.len() && 0 <= j < ignored.len() && #[trigger] dirs[i] == #[trigger] ignored[j]
}

/// The record a scanned file becomes.
pub open spec fn record_of(e: ScannedFile, size: usize, ignored: Seq<Seq<char>>) -> FileView {
    FileView {
        path: relative_path(e),
        size: size as nat,
        is_binary: false,
        too_large: false,
        ignored: under_ignored(names_of(e.dirs@), ignored),
        content: None,
    }
}

/// The records of a walk, in walk order: files whose size could not be read
/// are left out.
pub open spec fn scanned_records(entries: Seq<ScannedFile>, ignored: Seq<Seq<char>>) -> Seq<
    FileView,
>
    decreases entries.len(),
{
    if entries.len() == 0 {
        Seq::empty()
    } else {
        let prev = scanned_records(entries.drop_last(), ignored);
        match entries.last().size {
            Some(s) => prev.push(record_of(entries.last(), s, ignored)),
            None => prev,
        }
    }
}

/// The sum of the sizes of the files.
pub open spec fn total_size(files: Seq<FileView>) -> nat
    decreases files.len(),
{
    if files.len() == 0 {
        0
    } else {
        total_size(files.drop_last()) + files.last().size
    }
}

/// How many of the files satisfy `p`.
pub open spec fn count_where(files: Seq<FileView>, p: spec_fn(FileView) -> bool) -> nat
    decreases files.len(),
{
    if files.len() == 0 {
        0
    } else {
        count_where(files.drop_last(), p) + if p(files.last()) {
            1nat
        } else {
            0nat
        }
    }
}

/// A file to be loaded whose content is missing.
pub open spec fn not_loaded(f: FileView) -> bool {
    f.should_load() && f.content is None
}

/// A file that is not ignored.
pub open spec fn relevant(f: FileView) -> bool {
    !f.ignored
}

/// A file to be loaded.
pub open spec fn to_load(f: FileView) -> bool {
    f.should_load()
}

/// A file classified as binary.
pub open spec fn binary(f: FileView) -> bool {
    f.is_binary
}

/// A scanned folder.
pub struct FolderInfo {
    pub folder_path: String,
    pub file_infos: Vec<FileInfo>,
    pub size_in_bytes: usize,
}

/// The mathematical model of a [`FolderInfo`].
pub struct FolderView {
    pub path: Seq<char>,
    pub files: Seq<FileView>,
    pub size: nat,
}

impl View for FolderInfo {
    type V = FolderView;

    open spec fn view(&self) -> FolderView {
        FolderView {
            path: self.folder_path@,
            files: self.file_infos@.map_values(|f: FileInfo| f@),
            size: self.size_in_bytes as nat,
        }
    }
}

impl FolderView {
    /// The recorded size is the sum of the sizes of the files.
    pub open spec fn wf(self) -> bool {
        self.size == total_size(self.files)
    }
}

fn path_of(e: &ScannedFile) -> (r: String)
    ensures
        r@ == relative_path(*e),
{
    let mut s = String::new();
    let mut i: usize = 0;
    while i < e.dirs.len()
        invariant
            i <= e.dirs@.len(),
            s@ == dir_prefix(names_of(e.dirs@).subrange(0, i as int)),
        decreases e.dirs@.len() - i,
    {
        proof {
            let d = names_of(e.dirs@).subrange(0, i + 1);
            assert(d.drop_last() =~= names_of(e.dirs@).subrange(0, i as int));
        }
        s.append(e.dirs[i].as_str());
        push_char(&mut s, '/');
        i += 1;
    }
    assert(names_of(e.dirs@).subrange(0, i as int) =~= names_of(e.dirs@));
    s.append(e.name.as_str());
    s
}

fn is_under_ignored(dirs: &Vec<String>, ignored: &Vec<String>) -> (r: bool)
    ensures
        r == under_ignored(names_of(dirs@), names_of(ignored@)),
{
    let mut i: usize = 0;
    while i < dirs.len()
        invariant
            i <= dirs@.len(),
            forall|a: int, b: int|
                0 <= a < i && 0 <= b < ignored@.len() ==> dirs@[a]@ != ignored@[b]@,
        decreases dirs@.len() - i,
    {
        let mut j: usize = 0;
        while j < ignored.len()
            invariant
                i < dirs@.len(),
                j <= ignored@.len(),
                forall|a: int, b: int|
                    0 <= a < i && 0 <= b < ignored@.len() ==> dirs@[a]@ != ignored@[b]@,
                forall|b: int| 0 <= b < j ==> dirs@[i as int]@ != ignored@[b]@,
            decreases ignored@.len() - j,
        {
            if same_text(dirs[i].as_str(), ignored[j].as_str()) {
                assert(names_of(dirs@)[i as int] == names_of(ignored@)[j as int]);
                return true;
            }
            j += 1;
        }
        i += 1;
    }
    assert forall|a: int, b: int|
        0 <= a < names_of(dirs@).len() && 0 <= b < names_of(ignored@).len() implies
        names_of(dirs@)[a] != names_of(ignored@)[b] by {
        assert(dirs@[a]@ != ignored@[b]@);
    }
    false
}

impl FolderInfo {
    /// The records of a walk of a folder: `listing` holds the files met, in
    /// walk order. A file whose size could not be read is left out, and a
    /// file is ignored when a directory above it bears one of the
    /// `ignored_subfolders` names.
    pub fn obtain_file_infos(listing: &Vec<ScannedFile>, ignored_subfolders: &Vec<String>) -> (r:
        Vec<FileInfo>)
        ensures
            r@.map_values(|f: FileInfo| f@) == scanned_records(
                listing@,
                names_of(ignored_subfolders@),
            ),
    {
        let ghost ignored = names_of(ignored_subfolders@);
        let mut file_infos: Vec<FileInfo> = Vec::new();
        let mut i: usize = 0;
        while i < listing.len()
            invariant
                i <= listing@.len(),
                ignored == names_of(ignored_subfolders@),
                file_infos@.map_values(|f: FileInfo| f@) == scanned_records(
                    listing@.subrange(0, i as int),
                    ignored,
                ),
            decreases listing@.len() - i,
        {
            let e = &listing[i];
            proof {
                let next = listing@.subrange(0, i + 1);
                assert(next.drop_last() =~= listing@.subrange(0, i as int));
                assert(next.last() == listing@[i as int]);
            }
            match e.size {
                Some(size) => {
                    let ghost before = file_infos@.map_values(|f: FileInfo| f@);
                    let path = path_of(e);
                    let ignored_here = is_under_ignored(&e.dirs, ignored_subfolders);
                    file_infos.push(FileInfo::new(path, size, ignored_here));
                    assert(file_infos@.map_values(|f: FileInfo| f@) =~= before.push(
                        record_of(listing@[i as int], size, ignored),
                    ));
                },
                None => {},
            }
            i += 1;
        }
        assert(listing@.subrange(0, i as int) =~= listing@);
        file_infos
    }

    /// Builds the snapshot of the folder at `folder_path` from a walk of it:
    /// `listing` holds the files met, in walk order, or is `None` when the
    /// root itself could not be read (see [`FolderInfo::obtain_file_infos`]).
    /// Fails when the root could not be read, or when the total size does
    /// not fit a `usize`.
    pub fn new(
        folder_path: &String,
        listing: Option<Vec<ScannedFile>>,
        ignored_subfolders: &Vec<String>,
    ) -> (r: Result<Self, ()>)
        ensures
            listing is None ==> r is Err,
            listing matches Some(entries) ==> {
                let files = scanned_records(entries@, names_of(ignored_subfolders@));
                &&& (r is Ok) == (total_size(files) <= usize::MAX)
                &&& r matches Ok(f) ==> f@ == (FolderView {
                    path: folder_path@,
                    files,
                    size: total_size(files),
                })
            },
    {
        let ghost given = listing;
        let entries = match listing {
            Some(entries) => entries,
            None => return Err(()),
        };
        let file_infos = Self::obtain_file_infos(&entries, ignored_subfolders);
        let ghost files = file_infos@.map_values(|f: FileInfo| f@);
        let mut size_in_bytes: usize = 0;
        let mut i: usize = 0;
        while i < file_infos.len()
            invariant
                files == file_infos@.map_values(|f: FileInfo| f@),
                files == scanned_records(entries@, names_of(ignored_subfolders@)),
                given == Some(entries),
                listing == given,
                i <= files.len(),
                size_in_bytes == total_size(files.subrange(0, i as int)),
            decreases files.len() - i,
        {
            proof {
                assert(files.subrange(0, i + 1).drop_last() =~= files.subrange(0, i as int));
            }
            let size = file_infos[i].size_in_bytes;
            if size > usize::MAX - size_in_bytes {
                proof {
                    lemma_total_size_prefix(files, i as int + 1);
                    assert(total_size(files.subrange(0, i + 1)) == size_in_bytes + size);
                }
                return Err(());
            }
            size_in_bytes = size_in_bytes + size;
            i += 1;
        }
        assert(files.subrange(0, i as int) =~= files);
        Ok(FolderInfo { folder_path: folder_path.clone(), file_infos, size_in_bytes })
    }
}

/// The total size of a prefix is at most the total size.
proof fn lemma_total_size_prefix(files: Seq<FileView>, k: int)
    requires
        0 <= k <= files.len(),
    ensures
        total_size(files.subrange(0, k)) <= total_size(files),
    decreases files.len() - k,
{
    if k < files.len() {
        lemma_total_size_prefix(files, k + 1);
        assert(files.subrange(0, k + 1).drop_last() =~= files.subrange(0, k));
    } else {
        assert(files.subrange(0, k) =~= files);
    }
}

/// How many files are to be loaded.
pub open spec fn n_to_load(files: Seq<FileView>) -> nat {
    count_where(files, |f: FileView| to_load(f))
}

/// How many files were to be loaded but have no content.
pub open spec fn n_not_loaded(files: Seq<FileView>) -> nat {
    count_where(files, |f: FileView| not_loaded(f))
}

/// How many files are classified as binary.
pub open spec fn n_binary(files: Seq<FileView>) -> nat {
    count_where(files, |f: FileView| binary(f))
}

/// Whether some file is not ignored.
pub open spec fn has_relevant(files: Seq<FileView>) -> bool {
    exists|i: int| 0 <= i < files.len() && relevant(#[trigger] files[i])
}

proof fn lemma_count_step(files: Seq<FileView>, i: int, p: spec_fn(FileView) -> bool)
    requires
        0 <= i < files.len(),
    ensures
        count_where(files.subrange(0, i + 1), p) == count_where(files.subrange(0, i), p) + if p(
            files[i],
        ) {
            1nat
        } else {
            0nat
        },
        count_where(files.subrange(0, i), p) <= i,
{
    assert(files.subrange(0, i + 1).drop_last() =~= files.subrange(0, i));
    lemma_count_bound(files.subrange(0, i), p);
}

proof fn lemma_count_bound(files: Seq<FileView>, p: spec_fn(FileView) -> bool)
    ensures
        count_where(files, p) <= files.len(),
    decreases files.len(),
{
    if files.len() > 0 {
        lemma_count_bound(files.drop_last(), p);
    }
}

impl FolderInfo {
    /// How many files the scan found, ignored ones included.
    pub fn get_number_of_files(&self) -> (r: usize)
        ensures
            r == self@.files.len(),
    {
        self.file_infos.len()
    }

    /// How many files are to be loaded: neither binary, too large nor ignored.
    pub fn get_number_of_files_whose_contents_should_be_loaded(&self) -> (r: usize)
        ensures
            r == n_to_load(self@.files),
    {
        let ghost files = self@.files;
        let mut n: usize = 0;
        let mut i: usize = 0;
        while i < self.file_infos.len()
            invariant
                files == self@.files,
                i <= files.len(),
                n == n_to_load(files.subrange(0, i as int)),
            decreases files.len() - i,
        {
            proof {
                lemma_count_step(files, i as int, |f: FileView| to_load(f));
            }
            if self.file_infos[i].content_should_be_loaded() {
                n += 1;
            }
            i += 1;
        }
        assert(files.subrange(0, i as int) =~= files);
        n
    }

    /// Whether at least one file is not ignored.
    pub fn contains_at_least_one_file_that_should_not_be_ignored(&self) -> (r: bool)
        ensures
            r == has_relevant(self@.files),
    {
        let ghost files = self@.files;
        let mut i: usize = 0;
        while i < self.file_infos.len()
            invariant
                files == self@.files,
                i <= files.len(),
                forall|j: int| 0 <= j < i ==> !relevant(#[trigger] files[j]),
            decreases files.len() - i,
        {
            if !self.file_infos[i].should_be_ignored {
                assert(relevant(files[i as int]));
                return true;
            }
            i += 1;
        }
        false
    }

    /// How many files were to be loaded but have no content.
    pub fn number_of_files_that_could_not_be_loaded(&self) -> (r: usize)
        ensures
            r == n_not_loaded(self@.files),
    {
        let ghost files = self@.files;
        let mut n: usize = 0;
        let mut i: usize = 0;
        while i < self.file_infos.len()
            invariant
                files == self@.files,
                i <= files.len(),
                n == n_not_loaded(files.subrange(0, i as int)),
            decreases files.len() - i,
        {
            proof {
                lemma_count_step(files, i as int, |f: FileView| not_loaded(f));
            }
            if self.file_infos[i].content_should_be_loaded() && !self.file_infos[i].has_content_loaded() {
                n += 1;
            }
            i += 1;
        }
        assert(files.subrange(0, i as int) =~= files);
        n
    }

    /// How many files are classified as binary.
    pub fn number_of_binary_files(&self) -> (r: usize)
        ensures
            r == n_binary(self@.files),
    {
        let ghost files = self@.files;
        let mut n: usize = 0;
        let mut i: usize = 0;
        while i < self.file_infos.len()
            invariant
                files == self@.files,
                i <= files.len(),
                n == n_binary(files.subrange(0, i as int)),
            decreases files.len() - i,
        {
            proof {
                lemma_count_step(files, i as int, |f: FileView| binary(f));
            }
            if self.file_infos[i].is_binary {
                n += 1;
            }
            i += 1;
        }
        assert(files.subrange(0, i as int) =~= files);
        n
    }
}

/// The text that bytes read from a file stand for: UTF-8 decoded, with each
/// invalid sequence replaced by U+FFFD.
pub uninterp spec fn lossy_text_of(b: Seq<u8>) -> Seq<char>;

/// Relies on `String::from_utf8_lossy`: the result depends on the bytes alone,
/// and valid UTF-8 decodes as it stands.
#[verifier::external_body]
fn decode_lossy(b: &[u8]) -> (r: String)
    ensures
        r@ == lossy_text_of(b@),
        valid_utf8(b@) ==> r@ == decode_utf8(b@),
{
    String::from_utf8_lossy(b).into_owned()
}

/// A file after classification: an ignored file is left as it is.
pub open spec fn classified(f: FileView, probe: Probe) -> FileView {
    if f.ignored {
        f
    } else {
        FileView { is_binary: file_verdict(f.path, probe), ..f }
    }
}

/// A file after the size filter: an ignored file is left as it is.
pub open spec fn size_filtered(f: FileView, max: nat) -> FileView {
    if f.ignored {
        f
    } else {
        FileView { too_large: f.size > max, ..f }
    }
}

/// A file after its load was attempted: only a file to be loaded whose read
/// succeeded gets content.
pub open spec fn loaded(f: FileView, bytes: Option<Seq<u8>>) -> FileView {
    if f.should_load() && bytes is Some {
        FileView { content: Some(lossy_text_of(bytes->Some_0)), ..f }
    } else {
        f
    }
}

/// The bytes of an optional read, as a sequence.
pub open spec fn bytes_of(b: Option<Vec<u8>>) -> Option<Seq<u8>> {
    match b {
        Some(v) => Some(v@),
        None => None,
    }
}

impl FolderInfo {
    /// Classifies the file at `file_index` from its path and `probe`, what
    /// reading its start gave; an ignored file is left untouched.
    pub fn determine_binarity_of_next_file(&mut self, file_index: usize, probe: &Probe)
        requires
            file_index < old(self)@.files.len(),
        ensures
            final(self)@ == (FolderView {
                files: old(self)@.files.update(
                    file_index as int,
                    classified(old(self)@.files[file_index as int], *probe),
                ),
                ..old(self)@
            }),
    {
        let ghost before = self@.files;
        if !self.file_infos[file_index].should_be_ignored {
            let b = file_is_binary(self.file_infos[file_index].filepath.as_str(), probe);
            self.file_infos[file_index].is_binary = b;
        }
        assert(self@.files =~= before.update(
            file_index as int,
            classified(before[file_index as int], *probe),
        ));
    }

    /// Marks each file that is not ignored as too large exactly when its size
    /// exceeds `max_file_size_in_bytes`.
    pub fn determine_files_too_large(&mut self, max_file_size_in_bytes: usize)
        ensures
            final(self)@.path == old(self)@.path,
            final(self)@.size == old(self)@.size,
            final(self)@.files.len() == old(self)@.files.len(),
            forall|i: int|
                0 <= i < old(self)@.files.len() ==> final(self)@.files[i] == size_filtered(
                    #[trigger] old(self)@.files[i],
                    max_file_size_in_bytes as nat,
                ),
    {
        let ghost before = self@.files;
        let mut i: usize = 0;
        while i < self.file_infos.len()
            invariant
                i <= self@.files.len(),
                self@.files.len() == before.len(),
                self@.path == old(self)@.path,
                self@.size == old(self)@.size,
                before == old(self)@.files,
                forall|j: int|
                    0 <= j < i ==> self@.files[j] == size_filtered(
                        #[trigger] before[j],
                        max_file_size_in_bytes as nat,
                    ),
                forall|j: int| i <= j < before.len() ==> self@.files[j] == #[trigger] before[j],
            decreases before.len() - i,
        {
            if !self.file_infos[i].should_be_ignored {
                let too_large = self.file_infos[i].size_in_bytes > max_file_size_in_bytes;
                self.file_infos[i].file_too_large = too_large;
            }
            i += 1;
        }
    }

    /// Attempts the load of the file at `file_index`: when it is to be loaded,
    /// `bytes` is what reading it gave (`None` when the read failed) and a
    /// successful read becomes its content. Returns whether it was to be
    /// loaded.
    pub fn load_next_file_content_if_required(
        &mut self,
        file_index: usize,
        bytes: Option<Vec<u8>>,
    ) -> (r: bool)
        requires
            file_index < old(self)@.files.len(),
        ensures
            r == old(self)@.files[file_index as int].should_load(),
            final(self)@ == (FolderView {
                files: old(self)@.files.update(
                    file_index as int,
                    loaded(old(self)@.files[file_index as int], bytes_of(bytes)),
                ),
                ..old(self)@
            }),
    {
        let ghost before = self@.files;
        let ghost given = bytes_of(bytes);
        if self.file_infos[file_index].content_should_be_loaded() {
            if let Some(b) = bytes {
                let text = decode_lossy(b.as_slice());
                self.file_infos[file_index].file_content = Some(text);
            }
            assert(self@.files =~= before.update(
                file_index as int,
                loaded(before[file_index as int], given),
            ));
            return true;
        }
        assert(self@.files =~= before.update(
            file_index as int,
            loaded(before[file_index as int], given),
        ));
        false
    }
}

/// A scanned file whose size was read becomes a record with its
/// root-relative path and size; when a directory above it bears an ignored
/// name the record is flagged ignored, and its size still counts toward the
/// folder's total.
pub proof fn law_scan_flags_files_below_ignored_directories(
    entries: Seq<ScannedFile>,
    ignored: Seq<Seq<char>>,
    k: int,
)
    requires
        0 <= k < entries.len(),
        entries[k].size is Some,
    ensures
        exists|i: int|
            0 <= i < scanned_records(entries, ignored).len() && #[trigger] scanned_records(
                entries,
                ignored,
            )[i] == record_of(entries[k], entries[k].size->Some_0, ignored),
        under_ignored(names_of(entries[k].dirs@), ignored) ==> record_of(
            entries[k],
            entries[k].size->Some_0,
            ignored,
        ).ignored,
        entries[k].size->Some_0 <= total_size(scanned_records(entries, ignored)),
    decreases entries.len(),
{
    let recs = scanned_records(entries, ignored);
    let prev = scanned_records(entries.drop_last(), ignored);
    if k == entries.len() - 1 {
        let x = record_of(entries[k], entries[k].size->Some_0, ignored);
        assert(recs == prev.push(x));
        assert(recs[prev.len() as int] == x);
        assert(recs.drop_last() =~= prev);
    } else {
        law_scan_flags_files_below_ignored_directories(entries.drop_last(), ignored, k);
        let i = choose|i: int|
            0 <= i < prev.len() && #[trigger] prev[i] == record_of(
                entries[k],
                entries[k].size->Some_0,
                ignored,
            );
        match entries.last().size {
            Some(s) => {
                let y = record_of(entries.last(), s, ignored);
                assert(recs == prev.push(y));
                assert(recs[i] == prev[i]);
                assert(recs.drop_last() =~= prev);
            },
            None => {
                assert(recs == prev);
            },
        }
    }
}

/// Scanning is deterministic: the same walk under the same ignored names
/// gives the same snapshot, with the same records in the same order and the
/// same outcome of the size check.
pub proof fn law_scan_is_deterministic(
    path: Seq<char>,
    a: Seq<ScannedFile>,
    b: Seq<ScannedFile>,
    ignored_a: Seq<Seq<char>>,
    ignored_b: Seq<Seq<char>>,
)
    requires
        a == b,
        ignored_a == ignored_b,
    ensures
        scanned_records(a, ignored_a) == scanned_records(b, ignored_b),
        total_size(scanned_records(a, ignored_a)) == total_size(scanned_records(b, ignored_b)),
{
}

} // verus!
