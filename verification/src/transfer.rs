//! The transfer run: which action comes next, and what the run amounts to.
//!
//! The engine touches no file. It names one action at a time; whoever drives it
//! performs the action and reports what happened as an event.

use crate::filter::{admitted_by, FilterConfig, FilterView};
use crate::selection::{SelectionState, SelectionView};
use crate::text::{join, joined};
use vstd::prelude::*;

verus! {

/// One file that was copied: where it was read and where it was written.
#[derive(Debug, Clone, PartialEq, Eq)]
pub struct TransferRecord {
    pub source: String,
    pub destination: String,
}

/// A `TransferRecord` as plain values.
pub ghost struct RecordView {
    pub source: Seq<char>,
    pub destination: Seq<char>,
}

impl View for TransferRecord {
    type V = RecordView;

    open spec fn view(&self) -> RecordView {
        RecordView { source: self.source@, destination: self.destination@ }
    }
}

/// The records of `records` as plain values.
pub open spec fn records_view(records: Seq<TransferRecord>) -> Seq<RecordView> {
    records.map_values(|record: TransferRecord| record@)
}

/// How a run ended.
#[derive(Debug, Clone, Copy, PartialEq, Eq, Structural)]
pub enum TransferStatus {
    /// No folder was chosen, or none of its subfolders was marked.
    NoSubfoldersSelected,
    /// Subfolders were marked, but no file was copied.
    NoFilesMatched,
    /// This many files were copied.
    Copied(usize),
}

/// The result of one run.
#[derive(Debug, Clone, PartialEq, Eq)]
pub struct TransferOutcome {
    pub status: TransferStatus,
    /// One record per copied file, in the order of copying. Empty unless the status
    /// is `Copied`.
    pub records: Vec<TransferRecord>,
}

/// A `TransferOutcome` as plain values.
pub ghost struct OutcomeView {
    pub status: TransferStatus,
    pub records: Seq<RecordView>,
}

impl OutcomeView {
    /// The count is the number of records, and there are records only where files
    /// were copied.
    pub open spec fn well_formed(self) -> bool {
        match self.status {
            TransferStatus::Copied(count) => count == self.records.len() && count > 0,
            _ => self.records.len() == 0,
        }
    }
}

impl View for TransferOutcome {
    type V = OutcomeView;

    open spec fn view(&self) -> OutcomeView {
        OutcomeView { status: self.status, records: records_view(self.records@) }
    }
}

/// What the driver is asked to do next.
#[derive(Debug, Clone, PartialEq, Eq)]
pub enum Action {
    /// Enumerate the immediate files of `directory` and report their names. A
    /// directory that cannot be read counts as empty.
    ListFiles { directory: String },
    /// Make sure that `destination_directory` exists, then copy `source` to
    /// `destination`, replacing what is there. Report whether the copy succeeded.
    CopyFile { source: String, destination_directory: String, destination: String },
    /// Make sure that `archive_directory` exists, then move `source` to `target`.
    /// Report when done, whether or not the move succeeded.
    ArchiveFile { source: String, archive_directory: String, target: String },
    /// Nothing is left to do.
    Finish,
}

/// An `Action` as plain values.
pub ghost enum ActionView {
    ListFiles { directory: Seq<char> },
    CopyFile { source: Seq<char>, destination_directory: Seq<char>, destination: Seq<char> },
    ArchiveFile { source: Seq<char>, archive_directory: Seq<char>, target: Seq<char> },
    Finish,
}

impl View for Action {
    type V = ActionView;

    open spec fn view(&self) -> ActionView {
        match self {
            Action::ListFiles { directory } => ActionView::ListFiles { directory: directory@ },
            Action::CopyFile { source, destination_directory, destination } => ActionView::CopyFile {
                source: source@,
                destination_directory: destination_directory@,
                destination: destination@,
            },
            Action::ArchiveFile { source, archive_directory, target } => ActionView::ArchiveFile {
                source: source@,
                archive_directory: archive_directory@,
                target: target@,
            },
            Action::Finish => ActionView::Finish,
        }
    }
}

/// What the driver reports back.
#[derive(Debug, Clone, PartialEq, Eq)]
pub enum Event {
    /// The names of the files found by a `ListFiles` action.
    Listed(Vec<String>),
    /// A `CopyFile` action ended; `true` where the file was written.
    CopyFinished(bool),
    /// An `ArchiveFile` action ended.
    ArchiveFinished,
}

/// An `Event` as plain values.
pub ghost enum EventView {
    Listed(Seq<Seq<char>>),
    CopyFinished(bool),
    ArchiveFinished,
}

impl View for Event {
    type V = EventView;

    open spec fn view(&self) -> EventView {
        match self {
            Event::Listed(names) => EventView::Listed(names.deep_view()),
            Event::CopyFinished(written) => EventView::CopyFinished(*written),
            Event::ArchiveFinished => EventView::ArchiveFinished,
        }
    }
}

/// What the engine is waiting for.
#[derive(Debug, Clone, Copy, PartialEq, Eq, Structural)]
pub enum Stage {
    /// The listing of the subfolder being visited.
    Listing,
    /// The end of the copy of the current file.
    Copying,
    /// The end of the move of the current file into the archive.
    Archiving,
    /// Nothing: the run is over.
    Finished,
}

/// The state of a run as plain values.
pub ghost struct EngineView {
    /// The chosen top-level folder, as a path.
    pub base: Seq<char>,
    pub destination_root: Seq<char>,
    pub filter: FilterView,
    pub move_after_copy: bool,
    /// Whether any subfolder was marked when the run began.
    pub any_selected: bool,
    /// The marked subfolders that are not done yet. The first is being visited.
    pub subfolders: Seq<Seq<char>>,
    /// The eligible files of the visited subfolder that are not done yet. The first
    /// is being copied or archived.
    pub files: Seq<Seq<char>>,
    /// The files copied so far.
    pub records: Seq<RecordView>,
    pub stage: Stage,
}

/// The name of the archive directory inside a subfolder.
pub open spec fn archive_name() -> Seq<char> {
    seq!['c', 'o', 'p', 'i', 'e', 'd']
}

impl EngineView {
    /// The stage fits the work that is left, and records exist only where subfolders
    /// were marked.
    pub open spec fn well_formed(self) -> bool {
        &&& match self.stage {
            Stage::Listing => self.subfolders.len() > 0 && self.files.len() == 0,
            Stage::Copying => self.subfolders.len() > 0 && self.files.len() > 0,
            Stage::Archiving => self.subfolders.len() > 0 && self.files.len() > 0
                && self.move_after_copy && self.records.len() > 0 && self.records.last()
                == self.current_record(),
            Stage::Finished => self.subfolders.len() == 0 && self.files.len() == 0,
        }
        &&& self.subfolders.len() > 0 ==> self.any_selected
        &&& self.records.len() > 0 ==> self.any_selected
    }

    /// The path of the subfolder being visited.
    pub open spec fn subfolder_path(self) -> Seq<char> {
        joined(self.base, self.subfolders[0])
    }

    /// The path of the current file.
    pub open spec fn source_path(self) -> Seq<char> {
        joined(self.subfolder_path(), self.files[0])
    }

    /// Where the current file is copied to: its own name, directly under the
    /// destination root.
    pub open spec fn destination_path(self) -> Seq<char> {
        joined(self.destination_root, self.files[0])
    }

    /// The archive directory of the subfolder being visited.
    pub open spec fn archive_directory(self) -> Seq<char> {
        joined(self.subfolder_path(), archive_name())
    }

    /// Where the current file is moved to after its copy.
    pub open spec fn archive_path(self) -> Seq<char> {
        joined(self.archive_directory(), self.files[0])
    }

    /// The record of the current file.
    pub open spec fn current_record(self) -> RecordView {
        RecordView { source: self.source_path(), destination: self.destination_path() }
    }

    /// The action that the state asks for.
    pub open spec fn pending_action(self) -> ActionView {
        match self.stage {
            Stage::Listing => ActionView::ListFiles { directory: self.subfolder_path() },
            Stage::Copying => ActionView::CopyFile {
                source: self.source_path(),
                destination_directory: self.destination_root,
                destination: self.destination_path(),
            },
            Stage::Archiving => ActionView::ArchiveFile {
                source: self.source_path(),
                archive_directory: self.archive_directory(),
                target: self.archive_path(),
            },
            Stage::Finished => ActionView::Finish,
        }
    }

    /// The state once the visited subfolder is done: the next one is listed, or the
    /// run is over.
    pub open spec fn leave_subfolder(self) -> EngineView {
        EngineView {
            subfolders: self.subfolders.drop_first(),
            files: Seq::empty(),
            stage: if self.subfolders.len() > 1 {
                Stage::Listing
            } else {
                Stage::Finished
            },
            ..self
        }
    }

    /// The state once the current file is done: the next file is copied, or the
    /// subfolder is left.
    pub open spec fn leave_file(self) -> EngineView {
        if self.files.len() > 1 {
            EngineView { files: self.files.drop_first(), stage: Stage::Copying, ..self }
        } else {
            self.leave_subfolder()
        }
    }

    /// The state after `event`. An event that does not answer the pending action
    /// changes nothing.
    pub open spec fn next_state(self, event: EventView) -> EngineView {
        match (self.stage, event) {
            (Stage::Listing, EventView::Listed(names)) => {
                let files = names.filter(admitted_by(self.filter));
                if files.len() > 0 {
                    EngineView { files, stage: Stage::Copying, ..self }
                } else {
                    self.leave_subfolder()
                }
            },
            (Stage::Copying, EventView::CopyFinished(written)) => {
                if !written {
                    self.leave_file()
                } else {
                    let recorded = EngineView {
                        records: self.records.push(self.current_record()),
                        ..self
                    };
                    if self.move_after_copy {
                        EngineView { stage: Stage::Archiving, ..recorded }
                    } else {
                        recorded.leave_file()
                    }
                }
            },
            (Stage::Archiving, EventView::ArchiveFinished) => self.leave_file(),
            _ => self,
        }
    }

    /// What the run amounts to so far.
    pub open spec fn outcome(self) -> OutcomeView {
        if !self.any_selected {
            OutcomeView { status: TransferStatus::NoSubfoldersSelected, records: Seq::empty() }
        } else if self.records.len() == 0 {
            OutcomeView { status: TransferStatus::NoFilesMatched, records: Seq::empty() }
        } else {
            OutcomeView {
                status: TransferStatus::Copied(self.records.len() as usize),
                records: self.records,
            }
        }
    }
}

/// The state in which a run begins. Without a chosen folder no subfolder counts as
/// marked.
pub open spec fn initial_state(
    selection: SelectionView,
    filter: FilterView,
    destination_root: Seq<char>,
) -> EngineView {
    let subfolders = match selection.selected_folder {
        Some(_) => selection.selected_names(),
        None => Seq::empty(),
    };
    EngineView {
        base: match selection.selected_folder {
            Some(folder) => joined(selection.source_root, folder),
            None => selection.source_root,
        },
        destination_root,
        filter,
        move_after_copy: selection.move_after_copy,
        any_selected: subfolders.len() > 0,
        subfolders,
        files: Seq::empty(),
        records: Seq::empty(),
        stage: if subfolders.len() > 0 {
            Stage::Listing
        } else {
            Stage::Finished
        },
    }
}

/// A transfer run in progress.
pub struct TransferEngine {
    base: String,
    destination_root: String,
    filter: FilterConfig,
    move_after_copy: bool,
    /// The marked subfolders, and the index of the one being visited.
    subfolders: Vec<String>,
    subfolder_at: usize,
    /// The eligible files of the visited subfolder, and the index of the current one.
    files: Vec<String>,
    file_at: usize,
    records: Vec<TransferRecord>,
    stage: Stage,
}

impl View for TransferEngine {
    type V = EngineView;

    closed spec fn view(&self) -> EngineView {
        EngineView {
            base: self.base@,
            destination_root: self.destination_root@,
            filter: self.filter@,
            move_after_copy: self.move_after_copy,
            any_selected: self.subfolders@.len() > 0,
            subfolders: self.subfolders.deep_view().skip(self.subfolder_at as int),
            files: self.files.deep_view().skip(self.file_at as int),
            records: records_view(self.records@),
            stage: self.stage,
        }
    }
}

impl TransferEngine {
    #[verifier::type_invariant]
    spec fn consistent(self) -> bool {
        &&& self.subfolder_at <= self.subfolders@.len()
        &&& self.file_at <= self.files@.len()
        &&& self@.well_formed()
    }

    /// Begins a run on the user's choices. Returns the engine and its first action.
    pub fn start(selection: &SelectionState, filter: FilterConfig, destination_root: &str) -> (started:
        (TransferEngine, Action))
        ensures
            started.0@ == initial_state(selection@, filter@, destination_root@),
            started.0@.well_formed(),
            started.1@ == started.0@.pending_action(),
    {
        let (base, subfolders) = match selection.selected_folder() {
            Some(folder) => (join(selection.source_root(), folder), selection.selected_subfolders()),
            None => (String::from_str(selection.source_root()), Vec::new()),
        };
        let stage = if subfolders.len() > 0 {
            Stage::Listing
        } else {
            Stage::Finished
        };
        let files: Vec<String> = Vec::new();
        let records: Vec<TransferRecord> = Vec::new();
        assert(subfolders.deep_view().skip(0) =~= subfolders.deep_view());
        assert(files.deep_view().skip(0) =~= Seq::<Seq<char>>::empty());
        assert(records_view(records@) =~= Seq::<RecordView>::empty());
        let engine = TransferEngine {
            base,
            destination_root: String::from_str(destination_root),
            filter,
            move_after_copy: selection.move_after_copy(),
            subfolders,
            subfolder_at: 0,
            files,
            file_at: 0,
            records,
            stage,
        };
        let action = engine.pending_action();
        (engine, action)
    }

    /// The action that the engine is waiting on.
    pub fn pending_action(&self) -> (action: Action)
        ensures
            action@ == self@.pending_action(),
    {
        proof {
            use_type_invariant(self);
            reveal_strlit("copied");
            assert("copied"@ =~= archive_name());
        }
        match self.stage {
            Stage::Listing => Action::ListFiles {
                directory: join(self.base.as_str(), self.subfolders[self.subfolder_at].as_str()),
            },
            Stage::Copying => {
                let file = self.files[self.file_at].as_str();
                let subfolder = join(
                    self.base.as_str(),
                    self.subfolders[self.subfolder_at].as_str(),
                );
                Action::CopyFile {
                    source: join(subfolder.as_str(), file),
                    destination_directory: self.destination_root.clone(),
                    destination: join(self.destination_root.as_str(), file),
                }
            },
            Stage::Archiving => {
                let file = self.files[self.file_at].as_str();
                let subfolder = join(
                    self.base.as_str(),
                    self.subfolders[self.subfolder_at].as_str(),
                );
                let archive = join(subfolder.as_str(), "copied");
                Action::ArchiveFile {
                    source: join(subfolder.as_str(), file),
                    target: join(archive.as_str(), file),
                    archive_directory: archive,
                }
            },
            Stage::Finished => Action::Finish,
        }
    }

    /// Whether the run is over.
    pub fn is_finished(&self) -> (finished: bool)
        ensures
            finished == (self@.stage == Stage::Finished),
    {
        match self.stage {
            Stage::Finished => true,
            _ => false,
        }
    }

    /// Moves on from the visited subfolder.
    fn leave_subfolder(self) -> (next: TransferEngine)
        requires
            self@.subfolders.len() > 0,
        ensures
            next@ == self@.leave_subfolder(),
    {
        proof {
            use_type_invariant(&self);
        }
        let ghost before = self@;
        assert(self.subfolder_at < self.subfolders.len());
        let TransferEngine {
            base,
            destination_root,
            filter,
            move_after_copy,
            subfolders,
            subfolder_at,
            files: _,
            file_at: _,
            records,
            stage: _,
        } = self;
        let at = subfolder_at + 1;
        let stage = if at < subfolders.len() {
            Stage::Listing
        } else {
            Stage::Finished
        };
        let files: Vec<String> = Vec::new();
        assert(subfolders.deep_view().skip(at as int) =~= before.subfolders.drop_first());
        assert(files.deep_view().skip(0) =~= Seq::<Seq<char>>::empty());
        TransferEngine {
            base,
            destination_root,
            filter,
            move_after_copy,
            subfolders,
            subfolder_at: at,
            files,
            file_at: 0,
            records,
            stage,
        }
    }

    /// Moves on from the current file.
    fn leave_file(self) -> (next: TransferEngine)
        requires
            self@.subfolders.len() > 0,
            self@.files.len() > 0,
        ensures
            next@ == self@.leave_file(),
    {
        proof {
            use_type_invariant(&self);
        }
        assert(self.file_at < self.files.len());
        if self.file_at + 1 < self.files.len() {
            let ghost before = self@;
            let TransferEngine {
                base,
                destination_root,
                filter,
                move_after_copy,
                subfolders,
                subfolder_at,
                files,
                file_at,
                records,
                stage: _,
            } = self;
            assert(files.deep_view().skip(file_at + 1) =~= before.files.drop_first());
            TransferEngine {
                base,
                destination_root,
                filter,
                move_after_copy,
                subfolders,
                subfolder_at,
                files,
                file_at: file_at + 1,
                records,
                stage: Stage::Copying,
            }
        } else {
            self.leave_subfolder()
        }
    }

    /// Takes in what the driver reports and returns the engine in its next state,
    /// with the action that it now asks for.
    pub fn step(self, event: Event) -> (next: (TransferEngine, Action))
        ensures
            next.0@ == self@.next_state(event@),
            next.0@.well_formed(),
            next.1@ == next.0@.pending_action(),
    {
        proof {
            use_type_invariant(&self);
        }
        let engine = match event {
            Event::Listed(names) => match self.stage {
                Stage::Listing => self.take_listing(&names),
                _ => self,
            },
            Event::CopyFinished(written) => match self.stage {
                Stage::Copying => if written {
                    self.take_copy()
                } else {
                    self.leave_file()
                },
                _ => self,
            },
            Event::ArchiveFinished => match self.stage {
                Stage::Archiving => self.leave_file(),
                _ => self,
            },
        };
        proof {
            use_type_invariant(&engine);
        }
        let action = engine.pending_action();
        (engine, action)
    }

    /// Starts on the eligible files among `names`, or leaves the subfolder where
    /// there are none.
    fn take_listing(self, names: &Vec<String>) -> (next: TransferEngine)
        requires
            self@.stage == Stage::Listing,
        ensures
            next@ == self@.next_state(EventView::Listed(names.deep_view())),
    {
        proof {
            use_type_invariant(&self);
        }
        let files = self.filter.eligible_files(names);
        if files.len() > 0 {
            let TransferEngine {
                base,
                destination_root,
                filter,
                move_after_copy,
                subfolders,
                subfolder_at,
                files: _,
                file_at: _,
                records,
                stage: _,
            } = self;
            assert(files.deep_view().skip(0) =~= files.deep_view());
            TransferEngine {
                base,
                destination_root,
                filter,
                move_after_copy,
                subfolders,
                subfolder_at,
                files,
                file_at: 0,
                records,
                stage: Stage::Copying,
            }
        } else {
            self.leave_subfolder()
        }
    }

    /// Records the copy of the current file, then archives the file or moves on.
    fn take_copy(self) -> (next: TransferEngine)
        requires
            self@.stage == Stage::Copying,
        ensures
            next@ == self@.next_state(EventView::CopyFinished(true)),
    {
        proof {
            use_type_invariant(&self);
        }
        let ghost before = self@;
        let TransferEngine {
            base,
            destination_root,
            filter,
            move_after_copy,
            subfolders,
            subfolder_at,
            files,
            file_at,
            mut records,
            stage: _,
        } = self;
        let file = files[file_at].as_str();
        let subfolder = join(base.as_str(), subfolders[subfolder_at].as_str());
        let record = TransferRecord {
            source: join(subfolder.as_str(), file),
            destination: join(destination_root.as_str(), file),
        };
        let ghost earlier = records@;
        records.push(record);
        assert(records_view(records@) =~= records_view(earlier).push(before.current_record()));
        let recorded = TransferEngine {
            base,
            destination_root,
            filter,
            move_after_copy,
            subfolders,
            subfolder_at,
            files,
            file_at,
            records,
            stage: if move_after_copy {
                Stage::Archiving
            } else {
                Stage::Copying
            },
        };
        if move_after_copy {
            recorded
        } else {
            recorded.leave_file()
        }
    }

    /// The result of the run, once it is over; `None` while work is left.
    pub fn outcome(self) -> (outcome: Option<TransferOutcome>)
        ensures
            outcome is Some == (self@.stage == Stage::Finished),
            outcome matches Some(result) ==> result@ == self@.outcome() && result@.well_formed(),
    {
        proof {
            use_type_invariant(&self);
        }
        match self.stage {
            Stage::Finished => {
                let TransferEngine { subfolders, records, .. } = self;
                let none: Vec<TransferRecord> = Vec::new();
                assert(records_view(none@) =~= Seq::<RecordView>::empty());
                if subfolders.len() == 0 {
                    Some(
                        TransferOutcome {
                            status: TransferStatus::NoSubfoldersSelected,
                            records: none,
                        },
                    )
                } else if records.len() == 0 {
                    Some(TransferOutcome { status: TransferStatus::NoFilesMatched, records: none })
                } else {
                    Some(
                        TransferOutcome { status: TransferStatus::Copied(records.len()), records },
                    )
                }
            },
            _ => None,
        }
    }
}

} // verus!
