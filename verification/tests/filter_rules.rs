use datapuller::filter::FilterConfig;

fn config(csv: bool, txt: bool, monkey: bool, block: bool, custom: &str) -> FilterConfig {
    FilterConfig {
        include_csv: csv,
        include_txt: txt,
        exclude_monkey: monkey,
        exclude_block: block,
        custom_exclude_prefix: custom.to_string(),
    }
}

const FOLDER: [&str; 5] =
    ["data.csv", "parameters.txt", "monkey-notes.txt", "block-x.txt", "readme.txt"];

fn names() -> Vec<String> {
    FOLDER.iter().map(|name| name.to_string()).collect()
}

#[test]
fn default_takes_csv_only() {
    let c = FilterConfig::default();
    assert!(c.include_csv);
    assert!(!c.include_txt);
    assert!(!c.exclude_monkey);
    assert!(!c.exclude_block);
    assert_eq!(c.custom_exclude_prefix, "");
    assert!(c.admits("data.csv"));
    assert!(!c.admits("readme.txt"));
}

#[test]
fn csv_is_taken_whatever_its_name() {
    let c = config(true, true, true, true, "data");
    assert!(c.admits("data.csv"));
    assert!(c.admits("parameters.csv"));
    assert!(c.admits("monkey-notes.csv"));
    assert!(c.admits("block-x.csv"));
}

#[test]
fn csv_is_left_when_csv_is_off() {
    let c = config(false, true, false, false, "");
    assert!(!c.admits("data.csv"));
}

#[test]
fn txt_is_left_when_txt_is_off() {
    let c = config(true, false, false, false, "");
    assert!(!c.admits("readme.txt"));
}

#[test]
fn other_extensions_are_never_taken() {
    let c = config(true, true, false, false, "");
    assert!(!c.admits("picture.png"));
    assert!(!c.admits("data.csv.bak"));
    assert!(!c.admits("csv"));
    assert!(!c.admits("txt"));
    assert!(!c.admits(".csv"));
    assert!(!c.admits(".txt"));
    assert!(!c.admits("data."));
    assert!(!c.admits(""));
}

#[test]
fn extension_is_compared_without_regard_to_case() {
    let c = config(true, true, false, false, "");
    assert!(c.admits("DATA.CSV"));
    assert!(c.admits("data.Csv"));
    assert!(c.admits("Readme.TXT"));
    assert!(c.admits("readme.tXt"));
}

#[test]
fn para_files_are_never_taken() {
    for monkey in [false, true] {
        for block in [false, true] {
            for custom in ["", "zzz"] {
                let c = config(false, true, monkey, block, custom);
                assert!(!c.admits("parameters.txt"));
                assert!(!c.admits("para.txt"));
                assert!(!c.admits("PARAmeters.txt"));
                assert!(!c.admits("Para-1.TXT"));
            }
        }
    }
}

#[test]
fn para_rule_does_not_reach_csv_files() {
    let c = config(true, true, false, false, "");
    assert!(c.admits("parameters.csv"));
}

#[test]
fn para_must_lead_the_name() {
    let c = config(false, true, false, false, "");
    assert!(c.admits("compare.txt"));
    assert!(c.admits("par.txt"));
}

#[test]
fn exclude_monkey_removes_exactly_the_monkey_files() {
    let off = config(true, true, false, true, "re");
    let on = config(true, true, true, true, "re");
    let samples = [
        "data.csv",
        "monkey.csv",
        "monkey-notes.txt",
        "Monkey-Notes.TXT",
        "monkey",
        "monk.txt",
        "a-monkey.txt",
        "block-x.txt",
        "readme.txt",
        "parameters.txt",
        "notes.txt",
        "notes.png",
    ];
    for name in samples {
        let lower = name.to_lowercase();
        let is_monkey_txt = lower.ends_with(".txt") && lower.starts_with("monkey");
        assert_eq!(on.admits(name), off.admits(name) && !is_monkey_txt, "{name}");
    }
    assert!(off.admits("monkey-notes.txt"));
    assert!(!on.admits("monkey-notes.txt"));
}

#[test]
fn exclude_block_removes_block_files() {
    let off = config(false, true, false, false, "");
    let on = config(false, true, false, true, "");
    assert!(off.admits("block-x.txt"));
    assert!(!on.admits("block-x.txt"));
    assert!(!on.admits("BLOCK2.txt"));
    assert!(on.admits("unblock.txt"));
    assert!(on.admits("monkey-notes.txt"));
}

#[test]
fn empty_custom_prefix_excludes_nothing() {
    let c = config(true, true, false, false, "");
    assert!(c.admits("readme.txt"));
    assert!(c.admits("monkey-notes.txt"));
    assert!(c.admits("block-x.txt"));
    assert!(c.admits("a.txt"));
    assert!(c.admits("data.csv"));
}

#[test]
fn custom_prefix_excludes_txt_files_that_start_with_it() {
    let c = config(true, true, false, false, "read");
    assert!(!c.admits("readme.txt"));
    assert!(!c.admits("read.txt"));
    assert!(c.admits("rea.txt"));
    assert!(c.admits("unread.txt"));
    assert!(c.admits("readings.csv"));
}

#[test]
fn custom_prefix_is_compared_without_regard_to_case() {
    let c = config(false, true, false, false, "Test");
    assert!(!c.admits("test-1.txt"));
    assert!(!c.admits("TESTING.txt"));
    assert!(!c.admits("Test.TXT"));
    assert!(c.admits("tes.txt"));
}

#[test]
fn case_is_folded_beyond_ascii() {
    let c = config(true, true, false, false, "\u{c9}t");
    assert!(c.admits("DONN\u{c9}ES.CSV"));
    assert!(!c.admits("\u{e9}t\u{e9}.txt"));
    assert!(!c.admits("\u{c9}T\u{c9}.TXT"));
    assert!(c.admits("hiver.txt"));
    assert!(!c.admits("data.\u{e7}sv"));
}

#[test]
fn rule_on_lowered_values_takes_them_as_they_are() {
    let c = config(true, true, true, true, "x");
    assert!(c.admits_lowered("x", "csv", "whatever"));
    assert!(!c.admits_lowered("x", "CSV", "whatever"));
    assert!(c.admits_lowered("x", "txt", "readme.txt"));
    assert!(!c.admits_lowered("x", "TXT", "readme.txt"));
    assert!(!c.admits_lowered("x", "txt", "parameters.txt"));
    assert!(c.admits_lowered("x", "txt", "Parameters.txt"));
    assert!(!c.admits_lowered("x", "txt", "monkey.txt"));
    assert!(!c.admits_lowered("x", "txt", "block.txt"));
    assert!(!c.admits_lowered("x", "txt", "x-ray.txt"));
    assert!(c.admits_lowered("y", "txt", "x-ray.txt"));
    assert!(!c.admits_lowered("x", "", "data"));
}

#[test]
fn rule_on_lowered_values_ignores_the_prefix_when_none_is_set() {
    let c = config(false, true, false, false, "");
    assert!(c.admits_lowered("read", "txt", "readme.txt"));
    assert!(c.admits_lowered("", "txt", "readme.txt"));
}

#[test]
fn folder_with_monkey_and_block_excluded() {
    let c = config(true, true, true, true, "");
    let kept = c.eligible_files(&names());
    assert_eq!(kept, vec!["data.csv".to_string(), "readme.txt".to_string()]);
}

#[test]
fn folder_with_custom_prefix_read() {
    let c = config(false, true, false, false, "read");
    let kept = c.eligible_files(&names());
    assert_eq!(kept, vec!["monkey-notes.txt".to_string(), "block-x.txt".to_string()]);
}

#[test]
fn eligible_files_keeps_order_and_repetitions() {
    let c = config(true, false, false, false, "");
    let listed: Vec<String> =
        ["b.csv", "x.txt", "a.csv", "b.csv"].iter().map(|name| name.to_string()).collect();
    assert_eq!(
        c.eligible_files(&listed),
        vec!["b.csv".to_string(), "a.csv".to_string(), "b.csv".to_string()]
    );
    assert_eq!(c.eligible_files(&Vec::new()), Vec::<String>::new());
}
