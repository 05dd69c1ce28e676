//! What whole runs amount to: the events of a run taken together, and what then
//! holds of its outcome.

use crate::filter::{admitted_by, FilterView};
use crate::selection::SelectionView;
use crate::text::joined;
use crate::transfer::{
    archive_name, initial_state, ActionView, EngineView, EventView, OutcomeView, RecordView,
    Stage, TransferStatus,
};
use vstd::prelude::*;

verus! {

/// The state that `events`, taken in order, lead to from `state`.
pub open spec fn run(state: EngineView, events: Seq<EventView>) -> EngineView
    decreases events.len(),
{
    if events.len() == 0 {
        state
    } else {
        run(state.next_state(events[0]), events.drop_first())
    }
}

/// Whether `names` holds no eligible file.
pub open spec fn none_eligible(filter: FilterView, names: Seq<Seq<char>>) -> bool {
    forall|i: int| 0 <= i < names.len() ==> !admitted_by(filter)(#[trigger] names[i])
}

/// Whether every listing among `events` holds no eligible file.
pub open spec fn no_listing_matches(filter: FilterView, events: Seq<EventView>) -> bool {
    forall|i: int|
        0 <= i < events.len() ==> (#[trigger] events[i] matches EventView::Listed(names)
            ==> none_eligible(filter, names))
}

/// A run begins in a well-formed state.
pub proof fn lemma_initial_state_well_formed(
    selection: SelectionView,
    filter: FilterView,
    destination_root: Seq<char>,
)
    ensures
        initial_state(selection, filter, destination_root).well_formed(),
{
}

/// No event leads out of the well-formed states.
pub proof fn lemma_next_state_well_formed(state: EngineView, event: EventView)
    requires
        state.well_formed(),
    ensures
        state.next_state(event).well_formed(),
{
}

/// No series of events leads out of the well-formed states.
pub proof fn lemma_run_well_formed(state: EngineView, events: Seq<EventView>)
    requires
        state.well_formed(),
    ensures
        run(state, events).well_formed(),
    decreases events.len(),
{
    if events.len() > 0 {
        lemma_next_state_well_formed(state, events[0]);
        lemma_run_well_formed(state.next_state(events[0]), events.drop_first());
    }
}

/// A finished run stays as it is, whatever is reported to it.
pub proof fn lemma_finished_is_final(state: EngineView, events: Seq<EventView>)
    requires
        state.stage == Stage::Finished,
    ensures
        run(state, events) == state,
    decreases events.len(),
{
    if events.len() > 0 {
        lemma_finished_is_final(state, events.drop_first());
    }
}

/// Where no folder is chosen, or no subfolder of it is marked, the run is over
/// before it begins and ends as `NoSubfoldersSelected`, whatever the folders hold
/// and whatever is reported.
pub proof fn lemma_nothing_selected(
    selection: SelectionView,
    filter: FilterView,
    destination_root: Seq<char>,
    events: Seq<EventView>,
)
    requires
        selection.selected_folder is None || forall|name: Seq<char>|
            selection.as_map().dom().contains(name) ==> !selection.as_map()[name],
    ensures
        initial_state(selection, filter, destination_root).pending_action() == ActionView::Finish,
        run(initial_state(selection, filter, destination_root), events).stage == Stage::Finished,
        run(initial_state(selection, filter, destination_root), events).outcome() == (OutcomeView {
            status: TransferStatus::NoSubfoldersSelected,
            records: Seq::empty(),
        }),
{
    if selection.selected_folder is Some {
        assert forall|at: int| 0 <= at < selection.subfolders.len() implies !(
        #[trigger] selection.subfolders[at]).1 by {
            let choice = selection.subfolders[at];
            assert(selection.names()[at] == choice.0);
            if choice.1 {
                assert(selection.as_map()[choice.0]);
            }
        }
        selection.subfolders.lemma_all_neg_filter_empty(crate::selection::marked());
    }
    lemma_finished_is_final(initial_state(selection, filter, destination_root), events);
}

/// While no listing holds an eligible file, nothing is copied.
pub proof fn lemma_no_match_no_record(state: EngineView, events: Seq<EventView>)
    requires
        state.well_formed(),
        state.records.len() == 0,
        state.files.len() == 0,
        no_listing_matches(state.filter, events),
    ensures
        run(state, events).records.len() == 0,
        run(state, events).any_selected == state.any_selected,
    decreases events.len(),
{
    if events.len() > 0 {
        let next = state.next_state(events[0]);
        if let EventView::Listed(names) = events[0] {
            names.lemma_all_neg_filter_empty(admitted_by(state.filter));
        }
        lemma_next_state_well_formed(state, events[0]);
        lemma_no_match_no_record(next, events.drop_first());
    }
}

/// Where at least one subfolder of the chosen folder is marked and no listing holds
/// an eligible file, the run amounts to `NoFilesMatched` at every point, and so at
/// its end.
pub proof fn lemma_nothing_matched(
    selection: SelectionView,
    filter: FilterView,
    destination_root: Seq<char>,
    events: Seq<EventView>,
)
    requires
        selection.selected_folder is Some,
        selection.selected_names().len() > 0,
        no_listing_matches(filter, events),
    ensures
        run(initial_state(selection, filter, destination_root), events).outcome() == (OutcomeView {
            status: TransferStatus::NoFilesMatched,
            records: Seq::empty(),
        }),
{
    lemma_no_match_no_record(initial_state(selection, filter, destination_root), events);
}

/// A run that does not archive asks for no move: every action of it lists a
/// directory or copies a file to the destination, so the source tree stays as it was.
pub proof fn lemma_copy_only_run_never_archives(
    selection: SelectionView,
    filter: FilterView,
    destination_root: Seq<char>,
    events: Seq<EventView>,
)
    requires
        !selection.move_after_copy,
    ensures
        !(run(initial_state(selection, filter, destination_root), events).pending_action()
            is ArchiveFile),
{
    let start = initial_state(selection, filter, destination_root);
    lemma_run_keeps_settings(start, events);
    lemma_run_well_formed(start, events);
}

/// The paths, the filter and the archiving choice stay the same throughout a run.
pub proof fn lemma_run_keeps_settings(state: EngineView, events: Seq<EventView>)
    ensures
        run(state, events).base == state.base,
        run(state, events).destination_root == state.destination_root,
        run(state, events).filter == state.filter,
        run(state, events).move_after_copy == state.move_after_copy,
    decreases events.len(),
{
    if events.len() > 0 {
        lemma_run_keeps_settings(state.next_state(events[0]), events.drop_first());
    }
}

/// In a run that archives, a copy that succeeded is recorded and the file is then
/// moved into the `copied` directory of its own subfolder, under its own name.
/// The record stays whatever becomes of the move.
pub proof fn lemma_archive_follows_copy(state: EngineView)
    requires
        state.well_formed(),
        state.stage == Stage::Copying,
        state.move_after_copy,
    ensures
        state.next_state(EventView::CopyFinished(true)).records == state.records.push(
            state.current_record(),
        ),
        state.next_state(EventView::CopyFinished(true)).pending_action() == (
        ActionView::ArchiveFile {
            source: state.source_path(),
            archive_directory: joined(state.subfolder_path(), archive_name()),
            target: joined(joined(state.subfolder_path(), archive_name()), state.files[0]),
        }),
        state.next_state(EventView::CopyFinished(true)).next_state(
            EventView::ArchiveFinished,
        ).records == state.records.push(state.current_record()),
{
}

/// A copy that failed leaves no record, and the run goes on with the next file.
pub proof fn lemma_failed_copy_is_skipped(state: EngineView)
    requires
        state.well_formed(),
        state.stage == Stage::Copying,
    ensures
        state.next_state(EventView::CopyFinished(false)) == state.leave_file(),
        state.next_state(EventView::CopyFinished(false)).records == state.records,
{
}

/// What the driver meets in one marked subfolder.
pub ghost struct Visit {
    /// The names that the listing of the subfolder reports.
    pub names: Seq<Seq<char>>,
    /// For each eligible file among them, in order, whether its copy succeeds.
    pub written: Seq<bool>,
}

impl Visit {
    /// The eligible files of the subfolder, in the order of the listing.
    pub open spec fn files(self, filter: FilterView) -> Seq<Seq<char>> {
        self.names.filter(admitted_by(filter))
    }

    /// There is one copy result for each eligible file.
    pub open spec fn fits(self, filter: FilterView) -> bool {
        self.written.len() == self.files(filter).len()
    }
}

/// The events that a driver reports while the files of one subfolder are copied:
/// for each file the end of its copy and, where the copy succeeded in a run that
/// archives, the end of its move.
pub open spec fn reports_for_files(written: Seq<bool>, archive: bool) -> Seq<EventView>
    decreases written.len(),
{
    if written.len() == 0 {
        Seq::empty()
    } else {
        let later = reports_for_files(written.drop_first(), archive);
        if written[0] && archive {
            seq![EventView::CopyFinished(true), EventView::ArchiveFinished] + later
        } else {
            seq![EventView::CopyFinished(written[0])] + later
        }
    }
}

/// The events that a driver reports over the marked subfolders, one visit after the
/// other: the listing, then the reports for its eligible files.
pub open spec fn reports_for_visits(visits: Seq<Visit>, archive: bool) -> Seq<EventView>
    decreases visits.len(),
{
    if visits.len() == 0 {
        Seq::empty()
    } else {
        seq![EventView::Listed(visits[0].names)] + reports_for_files(visits[0].written, archive)
            + reports_for_visits(visits.drop_first(), archive)
    }
}

/// One record for each of `files` whose copy succeeded, in order. The files lie in
/// `directory` and are copied to `destination_root` under their own names.
pub open spec fn records_for_files(
    directory: Seq<char>,
    destination_root: Seq<char>,
    files: Seq<Seq<char>>,
    written: Seq<bool>,
) -> Seq<RecordView>
    decreases files.len(),
{
    if files.len() == 0 || written.len() == 0 {
        Seq::empty()
    } else {
        let later = records_for_files(
            directory,
            destination_root,
            files.drop_first(),
            written.drop_first(),
        );
        if written[0] {
            seq![
                RecordView {
                    source: joined(directory, files[0]),
                    destination: joined(destination_root, files[0]),
                },
            ] + later
        } else {
            later
        }
    }
}

/// The records of a whole run: those of the first marked subfolder, then those of
/// the second, and so on.
pub open spec fn records_for_visits(
    base: Seq<char>,
    destination_root: Seq<char>,
    filter: FilterView,
    subfolders: Seq<Seq<char>>,
    visits: Seq<Visit>,
) -> Seq<RecordView>
    decreases subfolders.len(),
{
    if subfolders.len() == 0 || visits.len() == 0 {
        Seq::empty()
    } else {
        records_for_files(
            joined(base, subfolders[0]),
            destination_root,
            visits[0].files(filter),
            visits[0].written,
        ) + records_for_visits(
            base,
            destination_root,
            filter,
            subfolders.drop_first(),
            visits.drop_first(),
        )
    }
}

/// Where every copy succeeds, each file is recorded: the records are as many as the
/// files, and each tells where its file lay and where it went.
pub proof fn lemma_every_copy_recorded(
    directory: Seq<char>,
    destination_root: Seq<char>,
    files: Seq<Seq<char>>,
    written: Seq<bool>,
)
    requires
        written.len() == files.len(),
        forall|i: int| 0 <= i < written.len() ==> written[i],
    ensures
        records_for_files(directory, destination_root, files, written).len() == files.len(),
        forall|i: int|
            0 <= i < files.len() ==> #[trigger] records_for_files(
                directory,
                destination_root,
                files,
                written,
            )[i] == (RecordView {
                source: joined(directory, files[i]),
                destination: joined(destination_root, files[i]),
            }),
    decreases files.len(),
{
    if files.len() > 0 {
        lemma_every_copy_recorded(
            directory,
            destination_root,
            files.drop_first(),
            written.drop_first(),
        );
        assert forall|i: int| 0 <= i < files.len() implies #[trigger] records_for_files(
            directory,
            destination_root,
            files,
            written,
        )[i] == (RecordView {
            source: joined(directory, files[i]),
            destination: joined(destination_root, files[i]),
        }) by {}
    }
}

/// Events taken in two parts lead where they lead when taken at once.
pub proof fn lemma_run_in_parts(state: EngineView, first: Seq<EventView>, then: Seq<EventView>)
    ensures
        run(state, first + then) == run(run(state, first), then),
    decreases first.len(),
{
    if first.len() > 0 {
        assert((first + then).drop_first() =~= first.drop_first() + then);
        lemma_run_in_parts(state.next_state(first[0]), first.drop_first(), then);
    }
}

/// A single event leads to the next state.
pub proof fn lemma_run_one(state: EngineView, event: EventView)
    ensures
        run(state, seq![event]) == state.next_state(event),
{
    reveal_with_fuel(run, 2);
}

/// Once the reports for the files of the visited subfolder are in, the subfolder is
/// left, and exactly the files whose copy succeeded are recorded, in order.
pub proof fn lemma_files_run(state: EngineView, written: Seq<bool>)
    requires
        state.well_formed(),
        state.stage == Stage::Copying,
        written.len() == state.files.len(),
    ensures
        run(state, reports_for_files(written, state.move_after_copy)) == (EngineView {
            records: state.records + records_for_files(
                state.subfolder_path(),
                state.destination_root,
                state.files,
                written,
            ),
            ..state
        }).leave_subfolder(),
    decreases written.len(),
{
    let archive = state.move_after_copy;
    let later = reports_for_files(written.drop_first(), archive);
    let copied = state.next_state(EventView::CopyFinished(written[0]));
    let done = if written[0] && archive {
        copied.next_state(EventView::ArchiveFinished)
    } else {
        copied
    };
    assert(run(state, reports_for_files(written, archive)) == run(done, later)) by {
        let copy = seq![EventView::CopyFinished(written[0])];
        lemma_run_one(state, EventView::CopyFinished(written[0]));
        if written[0] && archive {
            let archived = seq![EventView::ArchiveFinished];
            assert(reports_for_files(written, archive) =~= copy + (archived + later));
            lemma_run_in_parts(state, copy, archived + later);
            lemma_run_in_parts(copied, archived, later);
            lemma_run_one(copied, EventView::ArchiveFinished);
        } else {
            lemma_run_in_parts(state, copy, later);
        }
    }
    let records = if written[0] {
        state.records.push(state.current_record())
    } else {
        state.records
    };
    let later_records = records_for_files(
        state.subfolder_path(),
        state.destination_root,
        state.files.drop_first(),
        written.drop_first(),
    );
    assert(state.records + records_for_files(
        state.subfolder_path(),
        state.destination_root,
        state.files,
        written,
    ) =~= records + later_records);
    if state.files.len() > 1 {
        lemma_files_run(done, written.drop_first());
    }
}

/// The complete run from a state that is about to list a subfolder: once the
/// reports for all subfolders are in, the run is over, and the files whose copy
/// succeeded are recorded subfolder by subfolder, in order.
pub proof fn lemma_visits_run(state: EngineView, visits: Seq<Visit>)
    requires
        state.well_formed(),
        state.stage == Stage::Listing || state.stage == Stage::Finished,
        visits.len() == state.subfolders.len(),
        forall|i: int| 0 <= i < visits.len() ==> (#[trigger] visits[i]).fits(state.filter),
    ensures
        run(state, reports_for_visits(visits, state.move_after_copy)) == (EngineView {
            subfolders: Seq::empty(),
            files: Seq::empty(),
            records: state.records + records_for_visits(
                state.base,
                state.destination_root,
                state.filter,
                state.subfolders,
                visits,
            ),
            stage: Stage::Finished,
            ..state
        }),
    decreases visits.len(),
{
    let archive = state.move_after_copy;
    if visits.len() == 0 {
        assert(state.subfolders =~= Seq::<Seq<char>>::empty());
        assert(state.files =~= Seq::<Seq<char>>::empty());
    } else {
        let visit = visits[0];
        let files = visit.files(state.filter);
        let listed = state.next_state(EventView::Listed(visit.names));
        let here = records_for_files(
            state.subfolder_path(),
            state.destination_root,
            files,
            visit.written,
        );
        let left = (EngineView { records: state.records + here, ..state }).leave_subfolder();
        let head = seq![EventView::Listed(visit.names)];
        let body = reports_for_files(visit.written, archive);
        let later = reports_for_visits(visits.drop_first(), archive);
        assert(run(state, head + body) == left) by {
            lemma_run_in_parts(state, head, body);
            lemma_run_one(state, EventView::Listed(visit.names));
            if files.len() > 0 {
                lemma_files_run(listed, visit.written);
            }
        }
        lemma_run_in_parts(state, head + body, later);
        lemma_visits_run(left, visits.drop_first());
        assert((state.records + here) + records_for_visits(
            state.base,
            state.destination_root,
            state.filter,
            state.subfolders.drop_first(),
            visits.drop_first(),
        ) =~= state.records + records_for_visits(
            state.base,
            state.destination_root,
            state.filter,
            state.subfolders,
            visits,
        ));
    }
}

/// What a whole run amounts to. With a folder chosen and one visit for each marked
/// subfolder, the run is over once the driver has reported on every visit. It ends
/// as `NoSubfoldersSelected` where no subfolder is marked, as `NoFilesMatched`
/// where no copy succeeded, and else as `Copied` with one record for each eligible
/// file whose copy succeeded, subfolder by subfolder in the order of the listings.
pub proof fn lemma_complete_run(
    selection: SelectionView,
    filter: FilterView,
    destination_root: Seq<char>,
    visits: Seq<Visit>,
)
    requires
        selection.selected_folder is Some,
        visits.len() == selection.selected_names().len(),
        forall|i: int| 0 <= i < visits.len() ==> (#[trigger] visits[i]).fits(filter),
    ensures
        ({
            let end = run(
                initial_state(selection, filter, destination_root),
                reports_for_visits(visits, selection.move_after_copy),
            );
            let records = records_for_visits(
                joined(selection.source_root, selection.selected_folder->0),
                destination_root,
                filter,
                selection.selected_names(),
                visits,
            );
            &&& end.stage == Stage::Finished
            &&& end.outcome() == if visits.len() == 0 {
                OutcomeView { status: TransferStatus::NoSubfoldersSelected, records: Seq::empty() }
            } else if records.len() == 0 {
                OutcomeView { status: TransferStatus::NoFilesMatched, records: Seq::empty() }
            } else {
                OutcomeView { status: TransferStatus::Copied(records.len() as usize), records }
            }
        }),
{
    let start = initial_state(selection, filter, destination_root);
    lemma_visits_run(start, visits);
}

} // verus!
