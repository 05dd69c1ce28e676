use datapuller::listing::{file_names, subdirectory_names, DirectoryEntry};

fn entry(name: &str, is_directory: bool) -> DirectoryEntry {
    DirectoryEntry { name: name.to_string(), is_directory }
}

fn strings(names: &[&str]) -> Vec<String> {
    names.iter().map(|name| name.to_string()).collect()
}

#[test]
fn subdirectories_come_out_in_ascending_order() {
    let entries = vec![
        entry("Smith", true),
        entry("Adams", true),
        entry("notes.txt", false),
        entry("Zhou", true),
        entry("Baker", true),
    ];
    assert_eq!(subdirectory_names(&entries), strings(&["Adams", "Baker", "Smith", "Zhou"]));
}

#[test]
fn files_are_not_subdirectories() {
    let entries = vec![entry("a.csv", false), entry("b.txt", false)];
    assert_eq!(subdirectory_names(&entries), Vec::<String>::new());
}

#[test]
fn nothing_found_gives_nothing() {
    assert_eq!(subdirectory_names(&Vec::new()), Vec::<String>::new());
    assert_eq!(file_names(&Vec::new()), Vec::<String>::new());
}

#[test]
fn order_follows_code_points_so_capitals_come_first() {
    let entries = vec![entry("beta", true), entry("Beta", true), entry("alpha", true)];
    assert_eq!(subdirectory_names(&entries), strings(&["Beta", "alpha", "beta"]));
}

#[test]
fn a_name_that_begins_another_comes_first() {
    let entries = vec![entry("chem101b", true), entry("chem101", true), entry("chem", true)];
    assert_eq!(subdirectory_names(&entries), strings(&["chem", "chem101", "chem101b"]));
}

#[test]
fn order_of_the_entries_does_not_matter() {
    let one = vec![entry("c", true), entry("a", true), entry("b", true)];
    let other = vec![entry("b", true), entry("c", true), entry("a", true)];
    assert_eq!(subdirectory_names(&one), subdirectory_names(&other));
    assert_eq!(subdirectory_names(&one), strings(&["a", "b", "c"]));
}

#[test]
fn names_found_twice_stay_twice() {
    let entries = vec![entry("a", true), entry("b", true), entry("a", true)];
    assert_eq!(subdirectory_names(&entries), strings(&["a", "a", "b"]));
}

#[test]
fn file_names_leave_directories_out() {
    let entries = vec![
        entry("readme.txt", false),
        entry("copied", true),
        entry("data.csv", false),
        entry("block-x.txt", false),
    ];
    assert_eq!(file_names(&entries), strings(&["block-x.txt", "data.csv", "readme.txt"]));
}

#[test]
fn sorting_agrees_with_the_order_of_strings() {
    let raw = ["delta", "Alpha", "", "charlie", "alpha", "Bravo", "été", "z", "a b", "a"];
    let entries: Vec<DirectoryEntry> = raw.iter().map(|name| entry(name, true)).collect();
    let mut expected = strings(&raw);
    expected.sort();
    assert_eq!(subdirectory_names(&entries), expected);
}
