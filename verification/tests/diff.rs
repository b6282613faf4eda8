use editor_history::diff::{diff_lines, diff_text};
use editor_history::text::{lines_of, same_line};

fn line(text: &str) -> Vec<char> {
    text.chars().collect()
}

fn lines(texts: &[&str]) -> Vec<Vec<char>> {
    texts.iter().map(|t| line(t)).collect()
}

#[test]
fn lines_of_the_empty_text() {
    assert_eq!(lines_of(""), Vec::<Vec<char>>::new());
}

#[test]
fn lines_of_a_single_unterminated_line() {
    assert_eq!(lines_of("cube(1);"), lines(&["cube(1);"]));
}

#[test]
fn lines_of_ignores_one_final_newline() {
    assert_eq!(lines_of("a\n"), lines(&["a"]));
    assert_eq!(lines_of("a\nb\n"), lines(&["a", "b"]));
    assert_eq!(lines_of("a\nb"), lines(&["a", "b"]));
}

#[test]
fn lines_of_keeps_empty_lines() {
    assert_eq!(lines_of("\n"), lines(&[""]));
    assert_eq!(lines_of("\n\n"), lines(&["", ""]));
    assert_eq!(lines_of("a\n\nb"), lines(&["a", "", "b"]));
    assert_eq!(lines_of("\na"), lines(&["", "a"]));
    assert_eq!(lines_of("a\n\n"), lines(&["a", ""]));
}

#[test]
fn lines_of_keeps_carriage_returns_and_wide_characters() {
    assert_eq!(lines_of("a\r\nb"), lines(&["a\r", "b"]));
    assert_eq!(lines_of("é∂\n🙂"), lines(&["é∂", "🙂"]));
}

#[test]
fn same_line_compares_characters() {
    assert!(same_line(&line(""), &line("")));
    assert!(same_line(&line("abc"), &line("abc")));
    assert!(!same_line(&line("abc"), &line("abd")));
    assert!(!same_line(&line("abc"), &line("ab")));
    assert!(!same_line(&line(""), &line("a")));
}

#[test]
fn diff_of_two_empty_texts() {
    assert_eq!(diff_text("", ""), (String::new(), 0, 0));
}

#[test]
fn diff_from_the_empty_text_adds_every_line() {
    assert_eq!(diff_text("", "a\nb"), ("+a\n+b\n".to_string(), 2, 0));
}

#[test]
fn diff_to_the_empty_text_removes_every_line() {
    assert_eq!(diff_text("a\nb\n", ""), ("-a\n-b\n".to_string(), 0, 2));
}

#[test]
fn diff_of_equal_texts_keeps_every_line() {
    assert_eq!(diff_text("a\nb\nc", "a\nb\nc"), (" a\n b\n c\n".to_string(), 0, 0));
}

#[test]
fn diff_of_a_changed_line_removes_before_it_adds() {
    assert_eq!(diff_text("a\nb\nc", "a\nx\nc"), (" a\n-b\n+x\n c\n".to_string(), 1, 1));
}

#[test]
fn diff_of_an_inserted_and_a_deleted_line() {
    assert_eq!(
        diff_text("one\ntwo\nthree\nfour", "one\nthree\nthree and a half\nfour"),
        (" one\n-two\n three\n+three and a half\n four\n".to_string(), 1, 1)
    );
}

#[test]
fn diff_keeps_a_longest_common_subsequence() {
    // The lines a, b, c, d against b, d, a, c share two lines at most.
    let (text, added, removed) = diff_text("a\nb\nc\nd", "b\nd\na\nc");
    assert_eq!(added, 2);
    assert_eq!(removed, 2);
    assert_eq!(text, "-a\n b\n-c\n d\n+a\n+c\n");
}

#[test]
fn diff_with_nothing_in_common() {
    assert_eq!(diff_text("a\nb", "c\nd"), ("-a\n-b\n+c\n+d\n".to_string(), 2, 2));
}

#[test]
fn diff_counts_swap_when_the_direction_is_reversed() {
    let left = "module m() {\n  cube(1);\n  sphere(2);\n}\nm();";
    let right = "module m() {\n  sphere(2);\n  cylinder(3);\n}\n\nm();\nm();";
    let (_, added, removed) = diff_text(left, right);
    let (_, added_back, removed_back) = diff_text(right, left);
    assert_eq!(added, 3);
    assert_eq!(removed, 1);
    assert_eq!(added_back, removed);
    assert_eq!(removed_back, added);
}

#[test]
fn diff_treats_a_final_newline_as_no_change() {
    assert_eq!(diff_text("a\nb", "a\nb\n"), (" a\n b\n".to_string(), 0, 0));
}

#[test]
fn diff_of_empty_lines() {
    assert_eq!(diff_text("a\n\nb", "a\nb"), (" a\n-\n b\n".to_string(), 0, 1));
}

#[test]
fn diff_lines_compares_lists_of_lines() {
    let a = lines(&["x", "y"]);
    let b = lines(&["y", "z"]);
    assert_eq!(diff_lines(&a, &b), ("-x\n y\n+z\n".to_string(), 1, 1));
    assert_eq!(diff_lines(&Vec::new(), &Vec::new()), (String::new(), 0, 0));
}

#[test]
fn diff_of_a_longer_text() {
    let from: String = (0..200).map(|n| format!("line {}\n", n)).collect();
    let to: String = (0..200).filter(|n| n % 10 != 0).map(|n| format!("line {}\n", n)).collect();
    let (text, added, removed) = diff_text(&from, &to);
    assert_eq!(added, 0);
    assert_eq!(removed, 20);
    assert_eq!(text.lines().count(), 200);
    assert!(text.starts_with("-line 0\n line 1\n"));
}
