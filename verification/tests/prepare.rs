use bins::error::Error;
use bins::paste::PasteFile;
use bins::prepare::{handle_duplicate_file_names, keep_with_content, numbered_name, to_paste, PasteInput};

fn files(pairs: &[(&str, &str)]) -> Vec<PasteFile> {
    pairs.iter().map(|(n, d)| PasteFile::new((*n).to_owned(), (*d).to_owned())).collect()
}

fn names(files: &Vec<PasteFile>) -> Vec<String> {
    files.iter().map(|f| f.name.clone()).collect()
}

#[test]
fn duplicate_names_get_a_counter_before_the_extension() {
    let mut pastes = files(&[("x.txt", "1"), ("x.txt", "2"), ("y", "3")]);
    handle_duplicate_file_names(&mut pastes);
    assert_eq!(names(&pastes), vec!["x.txt", "x_1.txt", "y"]);
    assert_eq!(pastes[1].data, "2");
}

#[test]
fn counter_goes_up_with_each_occurrence() {
    let mut pastes =
        files(&[("report.txt", "a"), ("report.txt", "b"), ("other", "c"), ("report.txt", "d")]);
    handle_duplicate_file_names(&mut pastes);
    assert_eq!(names(&pastes), vec!["report.txt", "report_1.txt", "other", "report_2.txt"]);
}

#[test]
fn name_without_extension_gets_the_counter_at_its_end() {
    let mut pastes = files(&[("y", "1"), ("y", "2"), ("y", "3")]);
    handle_duplicate_file_names(&mut pastes);
    assert_eq!(names(&pastes), vec!["y", "y_1", "y_2"]);
}

#[test]
fn counter_goes_before_the_last_dot_only() {
    assert_eq!(numbered_name("a.tar.gz", 1), "a.tar_1.gz");
    assert_eq!(numbered_name(".bashrc", 2), "_2.bashrc");
    assert_eq!(numbered_name("trailing.", 3), "trailing_3.");
    assert_eq!(numbered_name("plain", 12), "plain_12");
    assert_eq!(numbered_name("", 1), "_1");
}

#[test]
fn distinct_names_stay_as_they_are() {
    let mut pastes = files(&[("a", "1"), ("b", "2"), ("A", "3")]);
    handle_duplicate_file_names(&mut pastes);
    assert_eq!(names(&pastes), vec!["a", "b", "A"]);
}

#[test]
fn blank_files_are_left_out() {
    let kept = keep_with_content(files(&[("a", "text"), ("b", " \n\t"), ("c", ""), ("d", " x ")]));
    assert_eq!(names(&kept), vec!["a", "d"]);
}

#[test]
fn message_becomes_the_file_message() {
    let pastes = to_paste(PasteInput::Message("hello".to_owned())).unwrap();
    assert_eq!(names(&pastes), vec!["message"]);
    assert_eq!(pastes[0].data, "hello");
}

#[test]
fn standard_input_becomes_the_file_stdin() {
    let pastes = to_paste(PasteInput::Stdin("piped\n".to_owned())).unwrap();
    assert_eq!(names(&pastes), vec!["stdin"]);
    assert_eq!(pastes[0].data, "piped\n");
}

#[test]
fn files_are_filtered_then_renamed() {
    let input = PasteInput::Files(files(&[("x.txt", " "), ("x.txt", "1"), ("x.txt", "2")]));
    let pastes = to_paste(input).unwrap();
    assert_eq!(names(&pastes), vec!["x.txt", "x_1.txt"]);
    assert_eq!(pastes[0].data, "1");
    assert_eq!(pastes[1].data, "2");
}

#[test]
fn nothing_but_blank_content_is_refused() {
    assert!(matches!(to_paste(PasteInput::Message("  ".to_owned())), Err(Error::NoFiles)));
    assert!(matches!(to_paste(PasteInput::Stdin(String::new())), Err(Error::NoFiles)));
    assert!(matches!(to_paste(PasteInput::Files(Vec::new())), Err(Error::NoFiles)));
    assert!(matches!(to_paste(PasteInput::Files(files(&[("a", "\n")]))), Err(Error::NoFiles)));
    assert_eq!(Error::NoFiles.message(), "no files (or all empty files) to paste");
}

#[test]
fn a_counter_moves_on_past_names_that_are_there() {
    let mut pastes = files(&[("x.txt", "1"), ("x.txt", "2"), ("x_1.txt", "3")]);
    handle_duplicate_file_names(&mut pastes);
    assert_eq!(names(&pastes), vec!["x.txt", "x_2.txt", "x_1.txt"]);
    let mut more = files(&[("x.txt", "1"), ("x_1.txt", "2"), ("x.txt", "3"), ("x.txt", "4")]);
    handle_duplicate_file_names(&mut more);
    assert_eq!(names(&more), vec!["x.txt", "x_1.txt", "x_2.txt", "x_3.txt"]);
    let mut nested = files(&[("a", "1"), ("a", "2"), ("a_1", "3"), ("a_1", "4")]);
    handle_duplicate_file_names(&mut nested);
    assert_eq!(names(&nested), vec!["a", "a_2", "a_1", "a_1_1"]);
}

#[test]
fn upload_names_are_pairwise_distinct() {
    let lists: Vec<Vec<&str>> = vec![
        vec!["x.txt", "x.txt", "x_1.txt"],
        vec!["a", "a_1", "a", "a_1", "a", "a_2", "a_1_1"],
        vec!["", "", "_1", "_1", "."],
        vec!["n.", "n.", "n_1.", "n", "n"],
    ];
    for list in lists {
        let mut pastes: Vec<PasteFile> =
            list.iter().map(|n| PasteFile::new((*n).to_owned(), "d".to_owned())).collect();
        handle_duplicate_file_names(&mut pastes);
        let mut seen = names(&pastes);
        assert_eq!(seen.len(), list.len());
        seen.sort();
        seen.dedup();
        assert_eq!(seen.len(), list.len(), "{:?}", list);
        for (i, name) in list.iter().enumerate() {
            if !list[..i].contains(name) {
                assert_eq!(&pastes[i].name, name);
            }
            assert_eq!(pastes[i].data, "d");
        }
    }
}
