//! What the user has chosen: a top-level folder, some of its subfolders, and whether
//! copied files are then moved into the archive.

use crate::text::same_text;
use vstd::prelude::*;

verus! {

/// One subfolder of the chosen folder and whether it takes part in the transfer.
struct SubfolderChoice {
    name: String,
    selected: bool,
}

/// A `SelectionState` as plain values. `subfolders` lists each subfolder once, with
/// its mark, in the order in which the subfolders were handed over.
pub ghost struct SelectionView {
    pub source_root: Seq<char>,
    pub selected_folder: Option<Seq<char>>,
    pub subfolders: Seq<(Seq<char>, bool)>,
    pub move_after_copy: bool,
}

/// The names in `names` without repetitions: of equal names the first one stays.
pub open spec fn distinct(names: Seq<Seq<char>>) -> Seq<Seq<char>>
    decreases names.len(),
{
    if names.len() == 0 {
        Seq::empty()
    } else {
        let earlier = distinct(names.drop_last());
        if earlier.contains(names.last()) {
            earlier
        } else {
            earlier.push(names.last())
        }
    }
}

/// Each of `names` as an unmarked subfolder.
pub open spec fn unmarked(names: Seq<Seq<char>>) -> Seq<(Seq<char>, bool)> {
    names.map_values(|name: Seq<char>| (name, false))
}

/// The names of `choices`, in order.
pub open spec fn names_of(choices: Seq<(Seq<char>, bool)>) -> Seq<Seq<char>> {
    choices.map_values(|choice: (Seq<char>, bool)| choice.0)
}

/// The predicate that holds of the marked subfolders.
pub open spec fn marked() -> spec_fn((Seq<char>, bool)) -> bool {
    |choice: (Seq<char>, bool)| choice.1
}

impl SelectionView {
    /// The subfolders' names, in order.
    pub open spec fn names(self) -> Seq<Seq<char>> {
        names_of(self.subfolders)
    }

    /// No subfolder is listed twice.
    pub open spec fn well_formed(self) -> bool {
        forall|i: int, j: int|
            0 <= i < j < self.subfolders.len() ==> (#[trigger] self.subfolders[i]).0 != (
            #[trigger] self.subfolders[j]).0
    }

    /// The selection as a mapping from subfolder name to mark.
    pub open spec fn as_map(self) -> Map<Seq<char>, bool> {
        Map::new(
            |name: Seq<char>| self.names().contains(name),
            |name: Seq<char>| self.subfolders.contains((name, true)),
        )
    }

    /// The names of the marked subfolders, in order.
    pub open spec fn selected_names(self) -> Seq<Seq<char>> {
        names_of(self.subfolders.filter(marked()))
    }

    /// The same selection with the mark of `name` set to `selected`.
    pub open spec fn with_mark(self, name: Seq<char>, selected: bool) -> SelectionView {
        SelectionView {
            subfolders: self.subfolders.map_values(
                |choice: (Seq<char>, bool)|
                    if choice.0 == name {
                        (choice.0, selected)
                    } else {
                        choice
                    },
            ),
            ..self
        }
    }

    /// The same selection after `folder` was chosen: its subfolders are `names`, once
    /// each and all unmarked.
    pub open spec fn with_folder(self, folder: Seq<char>, names: Seq<Seq<char>>) -> SelectionView {
        SelectionView {
            selected_folder: Some(folder),
            subfolders: unmarked(distinct(names)),
            ..self
        }
    }
}

/// The user's choices. The subfolder marks form a mapping: no name occurs twice.
pub struct SelectionState {
    source_root: String,
    selected_folder: Option<String>,
    subfolders: Vec<SubfolderChoice>,
    move_after_copy: bool,
}

/// The subfolders of `choices` with their marks, as plain values.
spec fn choices_view(choices: Seq<SubfolderChoice>) -> Seq<(Seq<char>, bool)> {
    choices.map_values(|choice: SubfolderChoice| (choice.name@, choice.selected))
}

impl View for SelectionState {
    type V = SelectionView;

    closed spec fn view(&self) -> SelectionView {
        SelectionView {
            source_root: self.source_root@,
            selected_folder: match self.selected_folder {
                Some(folder) => Some(folder@),
                None => None,
            },
            subfolders: choices_view(self.subfolders@),
            move_after_copy: self.move_after_copy,
        }
    }
}

/// `distinct` keeps every name of `names`, adds none, and repeats none.
pub proof fn lemma_distinct(names: Seq<Seq<char>>)
    ensures
        forall|name: Seq<char>| distinct(names).contains(name) == names.contains(name),
        forall|i: int, j: int|
            0 <= i < j < distinct(names).len() ==> distinct(names)[i] != distinct(names)[j],
    decreases names.len(),
{
    if names.len() > 0 {
        let front = names.drop_last();
        let earlier = distinct(front);
        lemma_distinct(front);
        assert forall|name: Seq<char>| distinct(names).contains(name) == names.contains(
            name,
        ) by {
            if names.contains(name) {
                let k = choose|k: int| 0 <= k < names.len() && names[k] == name;
                if k < front.len() {
                    assert(front[k] == name);
                    assert(front.contains(name));
                    let at = choose|at: int| 0 <= at < earlier.len() && earlier[at] == name;
                    assert(distinct(names)[at] == name);
                } else if !earlier.contains(name) {
                    assert(distinct(names)[earlier.len() as int] == name);
                }
            }
            if distinct(names).contains(name) {
                let at = choose|at: int| 0 <= at < distinct(names).len() && distinct(names)[at]
                    == name;
                if at < earlier.len() {
                    assert(front.contains(name));
                }
            }
        }
    }
}

/// The marked subfolders are those that the mapping sends to `true`.
pub proof fn lemma_selected_names_are_the_marked(selection: SelectionView, name: Seq<char>)
    ensures
        selection.selected_names().contains(name) == (selection.as_map().dom().contains(name)
            && selection.as_map()[name]),
{
    let all = selection.subfolders;
    let kept = all.filter(marked());
    if selection.selected_names().contains(name) {
        let at = choose|at: int|
            0 <= at < selection.selected_names().len() && selection.selected_names()[at] == name;
        all.lemma_filter_pred(marked(), at);
        all.lemma_filter_contains_rev(marked(), (name, true));
    }
    if all.contains((name, true)) {
        let at = choose|at: int| 0 <= at < all.len() && all[at] == (name, true);
        assert(selection.names()[at] == name);
        all.lemma_filter_contains(marked(), at);
        let to = choose|to: int| 0 <= to < kept.len() && kept[to] == (name, true);
        assert(selection.selected_names()[to] == name);
    }
}

/// Where `name` stands among `choices`, if it does.
fn position_of(choices: &Vec<SubfolderChoice>, name: &str) -> (found: Option<usize>)
    ensures
        match found {
            Some(at) => at < choices.len() && choices@[at as int].name@ == name@,
            None => forall|k: int| 0 <= k < choices.len() ==> choices@[k].name@ != name@,
        },
{
    let mut at: usize = 0;
    while at < choices.len()
        invariant
            at <= choices.len(),
            forall|k: int| 0 <= k < at ==> choices@[k].name@ != name@,
        decreases choices.len() - at,
    {
        if same_text(choices[at].name.as_str(), name) {
            return Some(at);
        }
        at += 1;
    }
    None
}

impl SelectionState {
    #[verifier::type_invariant]
    spec fn names_differ(self) -> bool {
        self@.well_formed()
    }

    /// A selection under `source_root` with no folder chosen yet.
    pub fn new(source_root: String) -> (state: Self)
        ensures
            state@ == (SelectionView {
                source_root: source_root@,
                selected_folder: None,
                subfolders: Seq::empty(),
                move_after_copy: false,
            }),
            state@.well_formed(),
    {
        let state = SelectionState {
            source_root,
            selected_folder: None,
            subfolders: Vec::new(),
            move_after_copy: false,
        };
        assert(state@.subfolders =~= Seq::empty());
        state
    }

    /// The directory that holds the top-level folders.
    pub fn source_root(&self) -> (root: &str)
        ensures
            root@ == self@.source_root,
    {
        self.source_root.as_str()
    }

    /// The chosen top-level folder, if one was chosen.
    pub fn selected_folder(&self) -> (folder: Option<&str>)
        ensures
            folder is Some == self@.selected_folder is Some,
            folder matches Some(name) ==> name@ == self@.selected_folder->0,
    {
        match &self.selected_folder {
            Some(folder) => Some(folder.as_str()),
            None => None,
        }
    }

    /// Whether a file is moved into the archive once it has been copied.
    pub fn move_after_copy(&self) -> (on: bool)
        ensures
            on == self@.move_after_copy,
    {
        self.move_after_copy
    }

    /// Chooses the top-level folder `folder`, whose immediate subfolders are `names`.
    /// The marks are rebuilt from nothing: every subfolder of `folder` is listed once
    /// and unmarked, and no entry of an earlier folder stays.
    pub fn select_folder(&mut self, folder: &str, names: &Vec<String>)
        ensures
            final(self)@ == old(self)@.with_folder(folder@, names.deep_view()),
            final(self)@.well_formed(),
    {
        let ghost all = names.deep_view();
        let mut fresh: Vec<SubfolderChoice> = Vec::new();
        let mut i: usize = 0;
        while i < names.len()
            invariant
                i <= names.len(),
                all == names.deep_view(),
                choices_view(fresh@) == unmarked(distinct(all.take(i as int))),
            decreases names.len() - i,
        {
            let ghost earlier = distinct(all.take(i as int));
            assert(all.take(i + 1).drop_last() =~= all.take(i as int));
            let ghost listed = choices_view(fresh@);
            assert(listed.len() == earlier.len());
            let found = position_of(&fresh, names[i].as_str());
            proof {
                if found is Some {
                    assert(unmarked(earlier)[found->0 as int].0 == earlier[found->0 as int]);
                } else if earlier.contains(names@[i as int]@) {
                    let at = choose|at: int|
                        0 <= at < earlier.len() && earlier[at] == names@[i as int]@;
                    assert(listed[at].0 == fresh@[at].name@);
                }
            }
            if found.is_none() {
                fresh.push(SubfolderChoice { name: names[i].clone(), selected: false });
                assert(unmarked(earlier.push(names@[i as int]@)) =~= unmarked(earlier).push(
                    (names@[i as int]@, false),
                ));
            }
            i += 1;
        }
        assert(all.take(names.len() as int) =~= all);
        proof {
            lemma_distinct(all);
        }
        self.subfolders = fresh;
        self.selected_folder = Some(String::from_str(folder));
    }

    /// Sets the mark of the subfolder `name`. Returns whether `name` is a subfolder of
    /// the chosen folder; where it is not, nothing changes.
    pub fn set_selected(&mut self, name: &str, selected: bool) -> (known: bool)
        ensures
            known == old(self)@.names().contains(name@),
            final(self)@ == old(self)@.with_mark(name@, selected),
            final(self)@.well_formed(),
    {
        proof {
            use_type_invariant(&*self);
        }
        match position_of(&self.subfolders, name) {
            Some(at) => {
                assert(self@.names()[at as int] == name@);
                let mut choices: Vec<SubfolderChoice> = Vec::new();
                std::mem::swap(&mut choices, &mut self.subfolders);
                let previous = choices.remove(at);
                choices.insert(at, SubfolderChoice { name: previous.name, selected });
                assert(choices_view(choices@) =~= old(self)@.with_mark(name@, selected).subfolders);
                self.subfolders = choices;
                true
            },
            None => {
                assert(self@.subfolders =~= self@.with_mark(name@, selected).subfolders);
                assert(!self@.names().contains(name@));
                false
            },
        }
    }

    /// The mark of the subfolder `name`, or `None` where the chosen folder has no
    /// such subfolder.
    pub fn is_selected(&self, name: &str) -> (mark: Option<bool>)
        ensures
            mark == (if self@.as_map().dom().contains(name@) {
                Some(self@.as_map()[name@])
            } else {
                None
            }),
    {
        proof {
            use_type_invariant(&*self);
        }
        match position_of(&self.subfolders, name) {
            Some(at) => {
                assert(self@.names()[at as int] == name@);
                Some(self.subfolders[at].selected)
            },
            None => {
                assert(!self@.names().contains(name@));
                None
            },
        }
    }

    /// The names of all subfolders of the chosen folder, in order.
    pub fn subfolder_names(&self) -> (names: Vec<String>)
        ensures
            names.deep_view() == self@.names(),
    {
        let mut names: Vec<String> = Vec::new();
        let mut i: usize = 0;
        while i < self.subfolders.len()
            invariant
                i <= self.subfolders.len(),
                names.len() == i,
                forall|k: int| 0 <= k < i ==> names@[k]@ == self.subfolders@[k].name@,
            decreases self.subfolders.len() - i,
        {
            names.push(self.subfolders[i].name.clone());
            i += 1;
        }
        names
    }

    /// The names of the marked subfolders, in order.
    pub fn selected_subfolders(&self) -> (names: Vec<String>)
        ensures
            names.deep_view() == self@.selected_names(),
    {
        let ghost all = self@.subfolders;
        let mut names: Vec<String> = Vec::new();
        let mut i: usize = 0;
        assert(all.take(0).filter(marked()) =~= Seq::<(Seq<char>, bool)>::empty()) by {
            reveal(Seq::filter);
        }
        while i < self.subfolders.len()
            invariant
                i <= self.subfolders.len(),
                all == self@.subfolders,
                names.deep_view() == names_of(all.take(i as int).filter(marked())),
            decreases self.subfolders.len() - i,
        {
            let ghost kept = all.take(i as int).filter(marked());
            assert(all.take(i + 1) =~= all.take(i as int).push(all[i as int]));
            proof {
                Seq::lemma_filter_push(all.take(i as int), all[i as int], marked());
            }
            if self.subfolders[i].selected {
                names.push(self.subfolders[i].name.clone());
                assert(names_of(kept.push(all[i as int])) =~= names_of(kept).push(
                    all[i as int].0,
                ));
            }
            i += 1;
        }
        assert(all.take(self.subfolders.len() as int) =~= all);
        names
    }

    /// Switches archiving after the copy on or off.
    pub fn set_move_after_copy(&mut self, on: bool)
        ensures
            final(self)@ == (SelectionView { move_after_copy: on, ..old(self)@ }),
            final(self)@.well_formed(),
    {
        proof {
            use_type_invariant(&*self);
        }
        self.move_after_copy = on;
    }
}

} // verus!
