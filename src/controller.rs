//! The ingestion controller: a state machine that moves a folder from
//! scanning through classification, size filtering and loading to its
//! messages, one unit of work per call. Whatever needs the file system is
//! named by [`Controller::pending_work`] and handed back to
//! [`Controller::advance`] by the caller.
use vstd::prelude::*;
use crate::classify::{binary_by_extension, verdict_by_extension, Probe};
use crate::text::{decimal_of, push_decimal};
use crate::folder_info::{
    bytes_of, classified, loaded, n_binary, n_not_loaded, n_to_load, names_of, scanned_records,
    size_filtered, total_size, FolderInfo, FolderView, ScannedFile,
};
use crate::segment::{
    build_messages, chunk_count, cluster_count, folder_messages, HEADER_RESERVE,
    MAX_CHARS_PER_MESSAGE,
};

verus! {

/// Where the ingestion of a folder stands.
#[derive(PartialEq, Eq, Structural, Clone, Copy, Debug)]
pub enum IngestionState {
    Initializing,
    ScanningTree,
    ClassifyingBinary,
    FilteringSize,
    LoadingContent,
    BuildingMessages,
    Ready,
    Failed,
}

/// The outside work that the next call of [`Controller::advance`] needs.
#[derive(PartialEq, Eq, Structural, Clone, Copy, Debug)]
pub enum Work {
    /// Nothing: the next step needs no input.
    Nothing,
    /// Walk the folder and hand back what was found.
    ScanTree,
    /// Read the start of the file at this index and hand back the result.
    ProbeFile(usize),
    /// Read the whole file at this index and hand back the result.
    ReadFile(usize),
}

/// What the caller hands to [`Controller::advance`]: the result of the
/// pending work, or `Done` when there was none.
pub enum Outcome {
    Done,
    Scanned(Option<Vec<ScannedFile>>),
    Probed(Probe),
    Read(Option<Vec<u8>>),
}

/// The state of an ingestion, with no invariant of its own.
struct Core {
    folder_path: String,
    ignored_subfolders: Vec<String>,
    file_size_limit: usize,
    max_chars: usize,
    reserve: usize,
    state: IngestionState,
    folder_info: FolderInfo,
    total_n_files: usize,
    n_files_classified: usize,
    n_files_attempted: usize,
    n_files_loaded: usize,
    n_binary_files: usize,
    total_n_files_to_load: usize,
    n_files_that_could_not_be_loaded: usize,
    messages: Vec<String>,
}

/// The mathematical model of a [`Controller`].
pub struct ControllerView {
    pub state: IngestionState,
    pub root: Seq<char>,
    pub ignored: Seq<Seq<char>>,
    pub size_limit: nat,
    pub max_chars: nat,
    pub reserve: nat,
    pub folder: FolderView,
    pub total: nat,
    pub classified: nat,
    pub attempted: nat,
    pub loaded: nat,
    pub n_binary: nat,
    pub n_to_load: nat,
    pub n_not_loaded: nat,
    pub messages: Seq<Seq<char>>,
}

impl View for Core {
    type V = ControllerView;

    closed spec fn view(&self) -> ControllerView {
        ControllerView {
            state: self.state,
            root: self.folder_path@,
            ignored: names_of(self.ignored_subfolders@),
            size_limit: self.file_size_limit as nat,
            max_chars: self.max_chars as nat,
            reserve: self.reserve as nat,
            folder: self.folder_info@,
            total: self.total_n_files as nat,
            classified: self.n_files_classified as nat,
            attempted: self.n_files_attempted as nat,
            loaded: self.n_files_loaded as nat,
            n_binary: self.n_binary_files as nat,
            n_to_load: self.total_n_files_to_load as nat,
            n_not_loaded: self.n_files_that_could_not_be_loaded as nat,
            messages: names_of(self.messages@),
        }
    }
}

/// The ingestion of one folder under one configuration.
pub struct Controller {
    core: Core,
}

impl View for Controller {
    type V = ControllerView;

    closed spec fn view(&self) -> ControllerView {
        self.core@
    }
}

impl Controller {
    #[verifier::type_invariant]
    spec fn inv(self) -> bool {
        self.core@.wf()
    }
}

impl ControllerView {
    /// The cursors stay within the snapshot and the snapshot's size is the
    /// sum of its files' sizes.
    pub open spec fn wf(self) -> bool {
        &&& self.reserve < self.max_chars
        &&& self.total == self.folder.files.len()
        &&& self.total <= usize::MAX
        &&& self.folder.wf()
        &&& self.classified <= self.total
        &&& self.attempted <= self.total
        &&& self.loaded <= self.attempted
        &&& (self.state == IngestionState::Initializing || self.state
            == IngestionState::ScanningTree) ==> self.classified == 0 && self.attempted == 0
            && self.loaded == 0
    }

    /// The work that the next step needs.
    pub open spec fn pending(self) -> Work {
        match self.state {
            IngestionState::ScanningTree => Work::ScanTree,
            IngestionState::ClassifyingBinary => {
                if self.classified < self.total && !self.folder.files[self.classified as int].ignored
                    && verdict_by_extension(self.folder.files[self.classified as int].path) is None {
                    Work::ProbeFile(self.classified as usize)
                } else {
                    Work::Nothing
                }
            },
            IngestionState::LoadingContent => {
                if self.attempted < self.total
                    && self.folder.files[self.attempted as int].should_load() {
                    Work::ReadFile(self.attempted as usize)
                } else {
                    Work::Nothing
                }
            },
            _ => Work::Nothing,
        }
    }
}

/// The controller after the file under the classification cursor became `f`.
pub open spec fn after_classify(v: ControllerView, f: crate::file_info::FileView) -> ControllerView {
    let files = v.folder.files.update(v.classified as int, f);
    ControllerView {
        state: if v.classified + 1 == v.total {
            IngestionState::FilteringSize
        } else {
            IngestionState::ClassifyingBinary
        },
        folder: FolderView { files, ..v.folder },
        classified: v.classified + 1,
        ..v
    }
}

/// The controller after the file under the load cursor became `f`, with
/// `loaded` files attempted so far.
pub open spec fn after_load(
    v: ControllerView,
    f: crate::file_info::FileView,
    loaded: nat,
) -> ControllerView {
    let files = v.folder.files.update(v.attempted as int, f);
    let done = v.attempted + 1 == v.total;
    ControllerView {
        state: if done {
            IngestionState::BuildingMessages
        } else {
            IngestionState::LoadingContent
        },
        folder: FolderView { files, ..v.folder },
        attempted: v.attempted + 1,
        loaded,
        n_not_loaded: if done {
            n_not_loaded(files)
        } else {
            v.n_not_loaded
        },
        ..v
    }
}

/// The files after the size filter.
pub open spec fn filtered_files(files: Seq<crate::file_info::FileView>, limit: nat) -> Seq<
    crate::file_info::FileView,
> {
    Seq::new(files.len(), |i: int| size_filtered(files[i], limit))
}

/// One step of the controller, given what the caller handed back. An outcome
/// that does not answer the pending work leaves the controller unchanged.
pub open spec fn step(v: ControllerView, o: Outcome) -> ControllerView {
    match v.state {
        IngestionState::Initializing => ControllerView { state: IngestionState::ScanningTree, ..v },
        IngestionState::ScanningTree => match o {
            Outcome::Scanned(None) => ControllerView { state: IngestionState::Failed, ..v },
            Outcome::Scanned(Some(entries)) => {
                let files = scanned_records(entries@, v.ignored);
                if total_size(files) <= usize::MAX {
                    ControllerView {
                        state: IngestionState::ClassifyingBinary,
                        folder: FolderView { path: v.root, files, size: total_size(files) },
                        total: files.len(),
                        ..v
                    }
                } else {
                    ControllerView { state: IngestionState::Failed, ..v }
                }
            },
            _ => v,
        },
        IngestionState::ClassifyingBinary => {
            if v.classified < v.total {
                let f = v.folder.files[v.classified as int];
                if f.ignored {
                    after_classify(v, f)
                } else if verdict_by_extension(f.path) is Some {
                    after_classify(v, classified(f, Probe::Unopenable))
                } else {
                    match o {
                        Outcome::Probed(p) => after_classify(v, classified(f, p)),
                        _ => v,
                    }
                }
            } else {
                ControllerView { state: IngestionState::FilteringSize, ..v }
            }
        },
        IngestionState::FilteringSize => {
            let files = filtered_files(v.folder.files, v.size_limit);
            ControllerView {
                state: IngestionState::LoadingContent,
                folder: FolderView { files, ..v.folder },
                n_to_load: n_to_load(files),
                n_binary: n_binary(files),
                ..v
            }
        },
        IngestionState::LoadingContent => {
            if v.attempted < v.total {
                let f = v.folder.files[v.attempted as int];
                if f.should_load() {
                    match o {
                        Outcome::Read(b) => after_load(v, loaded(f, bytes_of(b)), v.loaded + 1),
                        _ => v,
                    }
                } else {
                    after_load(v, f, v.loaded)
                }
            } else {
                ControllerView {
                    state: IngestionState::BuildingMessages,
                    n_not_loaded: n_not_loaded(v.folder.files),
                    ..v
                }
            }
        },
        IngestionState::BuildingMessages => {
            let e = (v.max_chars - v.reserve) as nat;
            if chunk_count(cluster_count(v.folder), e) < usize::MAX {
                ControllerView {
                    state: IngestionState::Ready,
                    messages: folder_messages(v.folder, v.max_chars, v.reserve),
                    ..v
                }
            } else {
                ControllerView { state: IngestionState::Failed, ..v }
            }
        },
        _ => v,
    }
}

/// The controller before any step, for the folder `root`.
pub open spec fn initial(
    root: Seq<char>,
    ignored: Seq<Seq<char>>,
    size_limit: nat,
    max_chars: nat,
    reserve: nat,
) -> ControllerView {
    ControllerView {
        state: IngestionState::Initializing,
        root,
        ignored,
        size_limit,
        max_chars,
        reserve,
        folder: FolderView { path: Seq::empty(), files: Seq::empty(), size: 0 },
        total: 0,
        classified: 0,
        attempted: 0,
        loaded: 0,
        n_binary: 0,
        n_to_load: 0,
        n_not_loaded: 0,
        messages: Seq::empty(),
    }
}

impl Core {
    fn with_budget(
        folder_path: String,
        ignored_subfolders: Vec<String>,
        file_size_limit: usize,
        max_chars: usize,
        reserve: usize,
    ) -> (r: Self)
        requires
            reserve < max_chars,
        ensures
            r@ == initial(
                folder_path@,
                names_of(ignored_subfolders@),
                file_size_limit as nat,
                max_chars as nat,
                reserve as nat,
            ),
            r@.wf(),
    {
        let r = Core {
            folder_path,
            ignored_subfolders,
            file_size_limit,
            max_chars,
            reserve,
            state: IngestionState::Initializing,
            folder_info: FolderInfo {
                folder_path: String::new(),
                file_infos: Vec::new(),
                size_in_bytes: 0,
            },
            total_n_files: 0,
            n_files_classified: 0,
            n_files_attempted: 0,
            n_files_loaded: 0,
            n_binary_files: 0,
            total_n_files_to_load: 0,
            n_files_that_could_not_be_loaded: 0,
            messages: Vec::new(),
        };
        assert(r@.folder.files =~= Seq::empty());
        assert(r@.messages =~= Seq::empty());
        r
    }

    fn pending_work(&self) -> (r: Work)
        requires
            self@.wf(),
        ensures
            r == self@.pending(),
    {
        match self.state {
            IngestionState::ScanningTree => Work::ScanTree,
            IngestionState::ClassifyingBinary => {
                let i = self.n_files_classified;
                if i < self.total_n_files && !self.folder_info.file_infos[i].should_be_ignored
                    && binary_by_extension(
                    self.folder_info.file_infos[i].filepath.as_str(),
                ).is_none() {
                    Work::ProbeFile(i)
                } else {
                    Work::Nothing
                }
            },
            IngestionState::LoadingContent => {
                let i = self.n_files_attempted;
                if i < self.total_n_files && self.folder_info.file_infos[i].content_should_be_loaded() {
                    Work::ReadFile(i)
                } else {
                    Work::Nothing
                }
            },
            _ => Work::Nothing,
        }
    }
}

impl Controller {
    /// A controller for the folder `folder_path` that ignores files below
    /// directories named in `ignored_subfolders`, counts files above
    /// `file_size_limit` bytes as too large, and cuts messages of at most
    /// `max_chars` characters, `reserve` of them kept for the header.
    pub fn with_budget(
        folder_path: String,
        ignored_subfolders: Vec<String>,
        file_size_limit: usize,
        max_chars: usize,
        reserve: usize,
    ) -> (r: Self)
        requires
            reserve < max_chars,
        ensures
            r@ == initial(
                folder_path@,
                names_of(ignored_subfolders@),
                file_size_limit as nat,
                max_chars as nat,
                reserve as nat,
            ),
            r@.wf(),
    {
        Controller {
            core: Core::with_budget(
                folder_path,
                ignored_subfolders,
                file_size_limit,
                max_chars,
                reserve,
            ),
        }
    }

    /// A controller with the default message budget of
    /// [`MAX_CHARS_PER_MESSAGE`] characters and [`HEADER_RESERVE`] for the
    /// header (see [`Controller::with_budget`]).
    pub fn new(folder_path: String, ignored_subfolders: Vec<String>, file_size_limit: usize) -> (r:
        Self)
        ensures
            r@ == initial(
                folder_path@,
                names_of(ignored_subfolders@),
                file_size_limit as nat,
                MAX_CHARS_PER_MESSAGE as nat,
                HEADER_RESERVE as nat,
            ),
            r@.wf(),
    {
        Self::with_budget(
            folder_path,
            ignored_subfolders,
            file_size_limit,
            MAX_CHARS_PER_MESSAGE,
            HEADER_RESERVE,
        )
    }

    /// The outside work that the next call of [`Controller::advance`] needs.
    pub fn pending_work(&self) -> (r: Work)
        ensures
            r == self@.pending(),
    {
        proof {
            use_type_invariant(self);
        }
        self.core.pending_work()
    }

    /// Performs one unit of work, given `outcome`, the result of the work
    /// that [`Controller::pending_work`] named (`Outcome::Done` when it named
    /// none). An outcome that does not answer the pending work leaves the
    /// controller as it is.
    pub fn advance(&mut self, outcome: Outcome)
        ensures
            final(self)@ == step(old(self)@, outcome),
            final(self)@.wf(),
    {
        proof {
            use_type_invariant(&*self);
        }
        let mut core = Core::with_budget(String::new(), Vec::new(), 0, 1, 0);
        std::mem::swap(&mut core, &mut self.core);
        core.advance(outcome);
        self.core = core;
    }
}

impl Core {
    fn scan(&mut self, outcome: Outcome)
        requires
            old(self)@.wf(),
            old(self)@.state == IngestionState::ScanningTree,
        ensures
            final(self)@ == step(old(self)@, outcome),
            final(self)@.wf(),
    {
        match outcome {
            Outcome::Scanned(listing) => {
                match FolderInfo::new(&self.folder_path, listing, &self.ignored_subfolders) {
                    Ok(folder_info) => {
                        self.total_n_files = folder_info.get_number_of_files();
                        self.folder_info = folder_info;
                        self.state = IngestionState::ClassifyingBinary;
                    },
                    Err(()) => {
                        self.state = IngestionState::Failed;
                    },
                }
            },
            _ => {},
        }
    }

    fn classify_next(&mut self, outcome: Outcome)
        requires
            old(self)@.wf(),
            old(self)@.state == IngestionState::ClassifyingBinary,
        ensures
            final(self)@ == step(old(self)@, outcome),
            final(self)@.wf(),
    {
        let i = self.n_files_classified;
        if i >= self.total_n_files {
            self.state = IngestionState::FilteringSize;
            return;
        }
        if self.folder_info.file_infos[i].should_be_ignored {
            proof {
                assert(self@.folder.files.update(i as int, self@.folder.files[i as int])
                    =~= self@.folder.files);
            }
        } else if binary_by_extension(self.folder_info.file_infos[i].filepath.as_str()).is_some() {
            // the extension decides; no probe is looked at
            self.folder_info.determine_binarity_of_next_file(i, &Probe::Unopenable);
        } else {
            match outcome {
                Outcome::Probed(probe) => {
                    self.folder_info.determine_binarity_of_next_file(i, &probe);
                },
                _ => {
                    return;
                },
            }
        }
        proof {
            lemma_update_keeps_size(old(self)@.folder.files, i as int, self@.folder.files[i as int]);
        }
        self.n_files_classified = i + 1;
        if self.n_files_classified == self.total_n_files {
            self.state = IngestionState::FilteringSize;
        }
    }

    fn filter_sizes(&mut self)
        requires
            old(self)@.wf(),
            old(self)@.state == IngestionState::FilteringSize,
        ensures
            final(self)@ == step(old(self)@, Outcome::Done),
            final(self)@.wf(),
    {
        self.folder_info.determine_files_too_large(self.file_size_limit);
        proof {
            assert(self@.folder.files =~= filtered_files(old(self)@.folder.files, self@.size_limit));
            lemma_filter_keeps_size(old(self)@.folder.files, self@.size_limit);
        }
        self.total_n_files_to_load = self.folder_info.get_number_of_files_whose_contents_should_be_loaded();
        self.n_binary_files = self.folder_info.number_of_binary_files();
        self.state = IngestionState::LoadingContent;
    }

    fn load_next(&mut self, outcome: Outcome)
        requires
            old(self)@.wf(),
            old(self)@.state == IngestionState::LoadingContent,
        ensures
            final(self)@ == step(old(self)@, outcome),
            final(self)@.wf(),
    {
        let i = self.n_files_attempted;
        if i >= self.total_n_files {
            self.n_files_that_could_not_be_loaded = self.folder_info.number_of_files_that_could_not_be_loaded();
            self.state = IngestionState::BuildingMessages;
            return;
        }
        if self.folder_info.file_infos[i].content_should_be_loaded() {
            match outcome {
                Outcome::Read(bytes) => {
                    self.folder_info.load_next_file_content_if_required(i, bytes);
                    self.n_files_loaded = self.n_files_loaded + 1;
                },
                _ => {
                    return;
                },
            }
        } else {
            proof {
                assert(self@.folder.files.update(i as int, self@.folder.files[i as int])
                    =~= self@.folder.files);
            }
        }
        proof {
            lemma_update_keeps_size(old(self)@.folder.files, i as int, self@.folder.files[i as int]);
        }
        self.n_files_attempted = i + 1;
        if self.n_files_attempted == self.total_n_files {
            self.n_files_that_could_not_be_loaded = self.folder_info.number_of_files_that_could_not_be_loaded();
            self.state = IngestionState::BuildingMessages;
        }
    }

    fn build(&mut self)
        requires
            old(self)@.wf(),
            old(self)@.state == IngestionState::BuildingMessages,
        ensures
            final(self)@ == step(old(self)@, Outcome::Done),
            final(self)@.wf(),
    {
        match build_messages(&self.folder_info, self.max_chars, self.reserve) {
            Ok(messages) => {
                self.messages = messages;
                self.state = IngestionState::Ready;
            },
            Err(()) => {
                self.state = IngestionState::Failed;
            },
        }
    }

    fn advance(&mut self, outcome: Outcome)
        requires
            old(self)@.wf(),
        ensures
            final(self)@ == step(old(self)@, outcome),
            final(self)@.wf(),
    {
        match self.state {
            IngestionState::Initializing => {
                self.state = IngestionState::ScanningTree;
            },
            IngestionState::ScanningTree => self.scan(outcome),
            IngestionState::ClassifyingBinary => self.classify_next(outcome),
            IngestionState::FilteringSize => self.filter_sizes(),
            IngestionState::LoadingContent => self.load_next(outcome),
            IngestionState::BuildingMessages => self.build(),
            _ => {},
        }
    }
}

/// Replacing a file by one of the same size keeps the total size.
proof fn lemma_update_keeps_size(files: Seq<crate::file_info::FileView>, i: int, f: crate::file_info::FileView)
    requires
        0 <= i < files.len(),
        f.size == files[i].size,
    ensures
        total_size(files.update(i, f)) == total_size(files),
    decreases files.len(),
{
    if i < files.len() - 1 {
        assert(files.update(i, f).drop_last() =~= files.drop_last().update(i, f));
        lemma_update_keeps_size(files.drop_last(), i, f);
    } else {
        assert(files.update(i, f).drop_last() =~= files.drop_last());
    }
}

/// The size filter keeps the total size.
proof fn lemma_filter_keeps_size(files: Seq<crate::file_info::FileView>, limit: nat)
    ensures
        total_size(filtered_files(files, limit)) == total_size(files),
    decreases files.len(),
{
    if files.len() > 0 {
        lemma_filter_keeps_size(files.drop_last(), limit);
        assert(filtered_files(files, limit).drop_last() =~= filtered_files(files.drop_last(), limit));
    }
}

/// The state after running `outcomes` through the controller, in order.
pub open spec fn run(v: ControllerView, outcomes: Seq<Outcome>) -> ControllerView
    decreases outcomes.len(),
{
    if outcomes.len() == 0 {
        v
    } else {
        step(run(v, outcomes.drop_last()), outcomes.last())
    }
}

/// Ingestion is deterministic: two controllers that start alike and are
/// handed the same outcomes (the same walk, the same reads) end alike, with
/// the same messages.
pub proof fn law_ingestion_is_deterministic(
    a: ControllerView,
    b: ControllerView,
    outcomes: Seq<Outcome>,
)
    requires
        a == b,
    ensures
        run(a, outcomes) == run(b, outcomes),
        run(a, outcomes).messages == run(b, outcomes).messages,
{
}

/// A file that is ignored is never classified, filtered or loaded: once the
/// scan has produced it, no step changes it, and no step asks to probe it.
pub proof fn law_ignored_files_are_never_touched(v: ControllerView, o: Outcome, i: int)
    requires
        v.wf(),
        v.state != IngestionState::ScanningTree,
        0 <= i < v.folder.files.len(),
        v.folder.files[i].ignored,
    ensures
        step(v, o).folder.files.len() == v.folder.files.len(),
        step(v, o).folder.files[i] == v.folder.files[i],
        v.pending() matches Work::ProbeFile(k) ==> k as int != i,
{
}

/// Content is only ever given to a file that is to be loaded (neither
/// binary, too large nor ignored), and only by the load step for that file.
pub proof fn law_content_only_for_files_to_load(v: ControllerView, o: Outcome, i: int)
    requires
        v.wf(),
        v.state != IngestionState::ScanningTree,
        0 <= i < v.folder.files.len(),
        step(v, o).folder.files[i].content != v.folder.files[i].content,
    ensures
        v.state == IngestionState::LoadingContent,
        i == v.attempted,
        v.folder.files[i].should_load(),
        v.pending() == Work::ReadFile(i as usize),
{
}

/// The controller asks only for work that is needed: a probe of the file
/// under the classification cursor when it is not ignored and its extension
/// does not decide, and a read of the file under the load cursor when it is
/// to be loaded.
pub proof fn law_requested_work_is_needed(v: ControllerView)
    requires
        v.wf(),
    ensures
        v.pending() matches Work::ProbeFile(k) ==> {
            &&& v.state == IngestionState::ClassifyingBinary
            &&& k as int == v.classified
            &&& k < v.folder.files.len()
            &&& !v.folder.files[k as int].ignored
            &&& verdict_by_extension(v.folder.files[k as int].path) is None
        },
        v.pending() matches Work::ReadFile(k) ==> {
            &&& v.state == IngestionState::LoadingContent
            &&& k as int == v.attempted
            &&& k < v.folder.files.len()
            &&& v.folder.files[k as int].should_load()
        },
{
}

/// A file whose extension decides its class is classified without reading
/// it: the controller asks for no probe of it, and whatever is handed back
/// it ends with the class its extension gives.
pub proof fn law_known_extension_needs_no_read(v: ControllerView, o: Outcome)
    requires
        v.wf(),
        v.state == IngestionState::ClassifyingBinary,
        v.classified < v.total,
        !v.folder.files[v.classified as int].ignored,
        verdict_by_extension(v.folder.files[v.classified as int].path) is Some,
    ensures
        v.pending() == Work::Nothing,
        step(v, o).folder.files[v.classified as int].is_binary == verdict_by_extension(
            v.folder.files[v.classified as int].path,
        )->Some_0,
{
}

/// The size filter marks exactly the files above the limit that are not
/// ignored, and keeps the folder's total size, to which ignored files
/// contribute.
pub proof fn law_size_filter(v: ControllerView, o: Outcome, i: int)
    requires
        v.wf(),
        v.state == IngestionState::FilteringSize,
        0 <= i < v.folder.files.len(),
    ensures
        step(v, o).folder.files[i].too_large == if v.folder.files[i].ignored {
            v.folder.files[i].too_large
        } else {
            v.folder.files[i].size > v.size_limit
        },
        step(v, o).folder.size == v.folder.size,
{
}

/// The progress line shown for a controller.
pub open spec fn status_of(v: ControllerView) -> Seq<char> {
    match v.state {
        IngestionState::Initializing | IngestionState::ScanningTree => "Obtaining initial info..."@,
        IngestionState::ClassifyingBinary => "Determining binary files... ("@ + decimal_of(
            v.classified,
        ) + "/"@ + decimal_of(v.total) + ")"@,
        IngestionState::LoadingContent => "Loading contents... ("@ + decimal_of(v.loaded) + "/"@
            + decimal_of(v.n_to_load) + ")"@,
        IngestionState::Ready => {
            let n = if v.n_to_load >= v.n_not_loaded {
                (v.n_to_load - v.n_not_loaded) as nat
            } else {
                0
            };
            if v.n_not_loaded == 0 {
                "All relevant files have been successfully loaded ("@ + decimal_of(n) + "/"@
                    + decimal_of(v.n_to_load) + ")"@
            } else {
                "Not all relevant files could be loaded ("@ + decimal_of(n) + "/"@ + decimal_of(
                    v.n_to_load,
                ) + "); perhaps they're being used somehow?"@
            }
        },
        _ => "Loading process in execution, please wait..."@,
    }
}

impl Controller {
    /// Where the ingestion stands.
    pub fn state(&self) -> (r: IngestionState)
        ensures
            r == self@.state,
    {
        self.core.state
    }

    /// How many files the scan found (0 before the scan).
    pub fn total_n_files(&self) -> (r: usize)
        ensures
            r == self@.total,
    {
        self.core.total_n_files
    }

    /// How many files the classification cursor has passed.
    pub fn n_files_classified(&self) -> (r: usize)
        ensures
            r == self@.classified,
    {
        self.core.n_files_classified
    }

    /// How many files the load cursor has passed.
    pub fn n_files_attempted(&self) -> (r: usize)
        ensures
            r == self@.attempted,
    {
        self.core.n_files_attempted
    }

    /// How many loads were attempted, successful or not.
    pub fn n_files_loaded(&self) -> (r: usize)
        ensures
            r == self@.loaded,
    {
        self.core.n_files_loaded
    }

    /// How many files are binary (known once sizes are filtered).
    pub fn n_binary_files(&self) -> (r: usize)
        ensures
            r == self@.n_binary,
    {
        self.core.n_binary_files
    }

    /// How many files are to be loaded (known once sizes are filtered).
    pub fn total_n_files_to_load(&self) -> (r: usize)
        ensures
            r == self@.n_to_load,
    {
        self.core.total_n_files_to_load
    }

    /// How many files to be loaded could not be read (known once loading
    /// ends).
    pub fn n_files_that_could_not_be_loaded(&self) -> (r: usize)
        ensures
            r == self@.n_not_loaded,
    {
        self.core.n_files_that_could_not_be_loaded
    }

    /// The scanned folder as it stands.
    pub fn folder_info(&self) -> (r: &FolderInfo)
        ensures
            r@ == self@.folder,
    {
        &self.core.folder_info
    }

    /// The root folder being ingested.
    pub fn folder_path(&self) -> (r: &String)
        ensures
            r@ == self@.root,
    {
        &self.core.folder_path
    }

    /// The root-relative path of the file at `index`.
    pub fn file_path(&self, index: usize) -> (r: &String)
        requires
            index < self@.total,
        ensures
            r@ == self@.folder.files[index as int].path,
    {
        proof {
            use_type_invariant(self);
        }
        &self.core.folder_info.file_infos[index].filepath
    }

    /// The messages, once ready (empty before).
    pub fn messages(&self) -> (r: &Vec<String>)
        ensures
            names_of(r@) == self@.messages,
    {
        &self.core.messages
    }

    /// The progress line for the current state.
    pub fn current_state_info_string(&self) -> (r: String)
        ensures
            r@ == status_of(self@),
    {
        let mut s = String::new();
        match self.core.state {
            IngestionState::Initializing | IngestionState::ScanningTree => {
                s.append("Obtaining initial info...");
            },
            IngestionState::ClassifyingBinary => {
                s.append("Determining binary files... (");
                push_decimal(&mut s, self.core.n_files_classified);
                s.append("/");
                push_decimal(&mut s, self.core.total_n_files);
                s.append(")");
            },
            IngestionState::LoadingContent => {
                s.append("Loading contents... (");
                push_decimal(&mut s, self.core.n_files_loaded);
                s.append("/");
                push_decimal(&mut s, self.core.total_n_files_to_load);
                s.append(")");
            },
            IngestionState::Ready => {
                let n = if self.core.total_n_files_to_load >= self.core.n_files_that_could_not_be_loaded {
                    self.core.total_n_files_to_load - self.core.n_files_that_could_not_be_loaded
                } else {
                    0
                };
                if self.core.n_files_that_could_not_be_loaded == 0 {
                    s.append("All relevant files have been successfully loaded (");
                    push_decimal(&mut s, n);
                    s.append("/");
                    push_decimal(&mut s, self.core.total_n_files_to_load);
                    s.append(")");
                } else {
                    s.append("Not all relevant files could be loaded (");
                    push_decimal(&mut s, n);
                    s.append("/");
                    push_decimal(&mut s, self.core.total_n_files_to_load);
                    s.append("); perhaps they're being used somehow?");
                }
            },
            _ => {
                s.append("Loading process in execution, please wait...");
            },
        }
        assert(s@ =~= status_of(self@));
        s
    }
}

} // verus!
