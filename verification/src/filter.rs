//! Which files qualify for a transfer: the extension and prefix rules.

use crate::text::{extension, extension_of, lowercase, same_text, starts_with, to_lowercase};
use vstd::prelude::*;

verus! {

/// The choices that decide which files are taken. They do not change during a run.
#[derive(Debug, Clone, PartialEq, Eq)]
pub struct FilterConfig {
    /// Take `.csv` files.
    pub include_csv: bool,
    /// Take `.txt` files, subject to the exclusions below.
    pub include_txt: bool,
    /// Leave out `.txt` files whose name starts with `monkey`.
    pub exclude_monkey: bool,
    /// Leave out `.txt` files whose name starts with `block`.
    pub exclude_block: bool,
    /// Leave out `.txt` files whose name starts with this prefix, compared without
    /// regard to case. The empty prefix excludes nothing.
    pub custom_exclude_prefix: String,
}

/// A `FilterConfig` as plain values.
pub ghost struct FilterView {
    pub include_csv: bool,
    pub include_txt: bool,
    pub exclude_monkey: bool,
    pub exclude_block: bool,
    pub custom_exclude_prefix: Seq<char>,
}

impl View for FilterConfig {
    type V = FilterView;

    open spec fn view(&self) -> FilterView {
        FilterView {
            include_csv: self.include_csv,
            include_txt: self.include_txt,
            exclude_monkey: self.exclude_monkey,
            exclude_block: self.exclude_block,
            custom_exclude_prefix: self.custom_exclude_prefix@,
        }
    }
}

/// The extension of the comma-separated files.
pub open spec fn csv() -> Seq<char> {
    seq!['c', 's', 'v']
}

/// The extension of the text files.
pub open spec fn txt() -> Seq<char> {
    seq!['t', 'x', 't']
}

/// The prefix that always rules a `.txt` file out.
pub open spec fn para() -> Seq<char> {
    seq!['p', 'a', 'r', 'a']
}

/// The prefix that `exclude_monkey` rules out.
pub open spec fn monkey() -> Seq<char> {
    seq!['m', 'o', 'n', 'k', 'e', 'y']
}

/// The prefix that `exclude_block` rules out.
pub open spec fn block() -> Seq<char> {
    seq!['b', 'l', 'o', 'c', 'k']
}

/// Whether the custom prefix rules a name out. `lowered_prefix` is the custom prefix in
/// lowercase and `name` the file name in lowercase.
pub open spec fn excluded_by_custom(
    f: FilterView,
    lowered_prefix: Seq<char>,
    name: Seq<char>,
) -> bool {
    f.custom_exclude_prefix.len() > 0 && lowered_prefix.is_prefix_of(name)
}

/// Whether one of the prefix rules leaves a `.txt` file out. The `para` rule always
/// applies; the others only where they are switched on.
pub open spec fn excluded_txt(f: FilterView, lowered_prefix: Seq<char>, name: Seq<char>) -> bool {
    ||| para().is_prefix_of(name)
    ||| f.exclude_monkey && monkey().is_prefix_of(name)
    ||| f.exclude_block && block().is_prefix_of(name)
    ||| excluded_by_custom(f, lowered_prefix, name)
}

/// The eligibility rule on values that are already in lowercase: the custom prefix,
/// the file's extension and the file's name.
pub open spec fn eligible_lowered(
    f: FilterView,
    lowered_prefix: Seq<char>,
    extension: Seq<char>,
    name: Seq<char>,
) -> bool {
    if extension == csv() && f.include_csv {
        true
    } else if extension == txt() && f.include_txt {
        !excluded_txt(f, lowered_prefix, name)
    } else {
        false
    }
}

/// Whether the file called `file_name` is eligible: the rule applied to the lowercase
/// forms of the custom prefix, of the name's extension and of the name.
pub open spec fn eligible(f: FilterView, file_name: Seq<char>) -> bool {
    eligible_lowered(
        f,
        lowercase(f.custom_exclude_prefix),
        lowercase(extension(file_name)),
        lowercase(file_name),
    )
}

/// `eligible` under `f`, as a predicate on file names.
pub open spec fn admitted_by(f: FilterView) -> spec_fn(Seq<char>) -> bool {
    |file_name: Seq<char>| eligible(f, file_name)
}

impl Default for FilterConfig {
    /// Only `.csv` files are taken and nothing is excluded.
    fn default() -> (config: Self)
        ensures
            config@ == (FilterView {
                include_csv: true,
                include_txt: false,
                exclude_monkey: false,
                exclude_block: false,
                custom_exclude_prefix: Seq::empty(),
            }),
    {
        FilterConfig {
            include_csv: true,
            include_txt: false,
            exclude_monkey: false,
            exclude_block: false,
            custom_exclude_prefix: String::new(),
        }
    }
}

impl FilterConfig {
    /// Applies the eligibility rule to values that are already in lowercase.
    pub fn admits_lowered(&self, lowered_prefix: &str, extension: &str, name: &str) -> (taken:
        bool)
        ensures
            taken == eligible_lowered(self@, lowered_prefix@, extension@, name@),
    {
        proof {
            reveal_strlit("csv");
            reveal_strlit("txt");
            reveal_strlit("para");
            reveal_strlit("monkey");
            reveal_strlit("block");
            assert("csv"@ =~= csv());
            assert("txt"@ =~= txt());
        }
        if self.include_csv && same_text(extension, "csv") {
            true
        } else if self.include_txt && same_text(extension, "txt") {
            if starts_with(name, "para") {
                false
            } else if self.exclude_monkey && starts_with(name, "monkey") {
                false
            } else if self.exclude_block && starts_with(name, "block") {
                false
            } else if !self.custom_exclude_prefix.as_str().is_empty() && starts_with(
                name,
                lowered_prefix,
            ) {
                false
            } else {
                true
            }
        } else {
            false
        }
    }

    /// Whether the file called `file_name` is eligible for transfer.
    pub fn admits(&self, file_name: &str) -> (taken: bool)
        ensures
            taken == eligible(self@, file_name@),
    {
        let lowered_prefix = to_lowercase(self.custom_exclude_prefix.as_str());
        let lowered_extension = to_lowercase(extension_of(file_name));
        let lowered_name = to_lowercase(file_name);
        self.admits_lowered(
            lowered_prefix.as_str(),
            lowered_extension.as_str(),
            lowered_name.as_str(),
        )
    }

    /// The eligible names among `names`, in their order.
    pub fn eligible_files(&self, names: &Vec<String>) -> (kept: Vec<String>)
        ensures
            kept.deep_view() == names.deep_view().filter(admitted_by(self@)),
    {
        let mut kept: Vec<String> = Vec::new();
        let mut i: usize = 0;
        let ghost all = names.deep_view();
        let ghost wanted = admitted_by(self@);
        assert(all.take(0).filter(wanted) =~= Seq::<Seq<char>>::empty()) by {
            reveal(Seq::filter);
        }
        while i < names.len()
            invariant
                i <= names.len(),
                all == names.deep_view(),
                wanted == admitted_by(self@),
                kept.deep_view() == all.take(i as int).filter(wanted),
            decreases names.len() - i,
        {
            assert(all.take(i + 1) =~= all.take(i as int).push(all[i as int]));
            proof {
                Seq::lemma_filter_push(all.take(i as int), all[i as int], wanted);
            }
            if self.admits(names[i].as_str()) {
                kept.push(names[i].clone());
            }
            i += 1;
        }
        assert(all.take(names.len() as int) =~= all);
        kept
    }
}

/// A `.csv` file is eligible whenever `.csv` files are included, whatever its name.
pub proof fn lemma_csv_regardless_of_name(f: FilterView, lowered_prefix: Seq<char>, name: Seq<char>)
    requires
        f.include_csv,
    ensures
        eligible_lowered(f, lowered_prefix, csv(), name),
{
}

/// A `.txt` file whose lowercase name starts with `para` is never eligible, whatever
/// the configuration.
pub proof fn lemma_para_never_eligible(f: FilterView, lowered_prefix: Seq<char>, name: Seq<char>)
    requires
        para().is_prefix_of(name),
    ensures
        !eligible_lowered(f, lowered_prefix, txt(), name),
{
    assert(txt() != csv());
}

/// Switching `exclude_monkey` on takes away exactly the `.txt` files whose lowercase
/// name starts with `monkey`: every other file keeps its eligibility.
pub proof fn lemma_exclude_monkey_exact(
    f: FilterView,
    lowered_prefix: Seq<char>,
    extension: Seq<char>,
    name: Seq<char>,
)
    ensures
        eligible_lowered(FilterView { exclude_monkey: true, ..f }, lowered_prefix, extension, name)
            == (eligible_lowered(
            FilterView { exclude_monkey: false, ..f },
            lowered_prefix,
            extension,
            name,
        ) && !(extension == txt() && monkey().is_prefix_of(name))),
{
    assert(txt() != csv());
}

/// The empty custom prefix excludes nothing: with it, whatever stands for its lowercase
/// form, a file is judged by the other rules alone.
pub proof fn lemma_empty_prefix_excludes_nothing(
    f: FilterView,
    lowered_prefix: Seq<char>,
    extension: Seq<char>,
    name: Seq<char>,
)
    requires
        f.custom_exclude_prefix.len() == 0,
    ensures
        !excluded_by_custom(f, lowered_prefix, name),
        eligible_lowered(f, lowered_prefix, extension, name) == (extension == csv() && f.include_csv
            || extension == txt() && f.include_txt && !para().is_prefix_of(name) && !(
        f.exclude_monkey && monkey().is_prefix_of(name)) && !(f.exclude_block
            && block().is_prefix_of(name))),
{
}

} // verus!
