use mtie::{is_tie_data, select_data_lines, tie_data_lines, DataLine};

fn parse_tie_input_data(input: String) -> Vec<f64> {
    tie_data_lines(&input).iter().filter_map(|line| line.text.parse::<f64>().ok()).collect()
}

#[test]
pub fn test_valid_input() {
    // Well formatted input
    let input = "1.0\n2.0\n3.0".to_string();
    let numbers = parse_tie_input_data(input);
    assert_eq!(numbers, vec![1.0, 2.0, 3.0]);

    // Same as above, with trailing newline
    let input = "1.0\n2.0\n3.0\n".to_string();
    let numbers = parse_tie_input_data(input);
    assert_eq!(numbers, vec![1.0, 2.0, 3.0]);

    // Blank lines
    let input = "1.0\n\n\n\n2.0".to_string();
    let numbers = parse_tie_input_data(input);
    assert_eq!(numbers, vec![1.0, 2.0]);

    // Lines with whitespace
    let input = "1.0\n    \n2.0".to_string();
    let numbers = parse_tie_input_data(input);
    assert_eq!(numbers, vec![1.0, 2.0]);
}

#[test]
pub fn test_invalid_input() {
    let input = "1\nnot_a_number".to_string();
    let lines = tie_data_lines(&input);
    assert_eq!(lines.len(), 2);
    assert_eq!(lines[1].number, 2);
    assert!(lines[1].text.parse::<f64>().is_err());
    let numbers = parse_tie_input_data(input);
    assert_eq!(numbers, vec![1.0]);
}

#[test]
fn comments_and_blanks_are_skipped_and_lines_keep_their_numbers() {
    let input = "  1.5 \r\n# comment\n// also a comment\n\n\t-2\n/5\n";
    let lines = tie_data_lines(input);
    assert_eq!(
        lines,
        vec![
            DataLine { number: 1, raw: "  1.5 ".to_string(), text: "1.5".to_string() },
            DataLine { number: 5, raw: "\t-2".to_string(), text: "-2".to_string() },
            DataLine { number: 6, raw: "/5".to_string(), text: "/5".to_string() },
        ]
    );
}

#[test]
fn indented_comments_are_skipped() {
    let lines = tie_data_lines("   # note\n  //x\n7");
    assert_eq!(lines.len(), 1);
    assert_eq!(lines[0].number, 3);
    assert_eq!(lines[0].text, "7");
}

#[test]
fn empty_text_has_no_data_lines() {
    assert!(tie_data_lines("").is_empty());
    assert!(tie_data_lines("\n\n   \n").is_empty());
}

#[test]
fn selecting_from_given_lines() {
    let lines = select_data_lines(&["#a", " 4 ", "", "x"]);
    assert_eq!(lines.len(), 2);
    assert_eq!((lines[0].number, lines[0].text.as_str()), (2, "4"));
    assert_eq!((lines[1].number, lines[1].text.as_str()), (4, "x"));
}

#[test]
fn data_text_rule() {
    assert!(is_tie_data("1.0"));
    assert!(is_tie_data("/"));
    assert!(is_tie_data("/1"));
    assert!(is_tie_data("a#"));
    assert!(!is_tie_data(""));
    assert!(!is_tie_data("#"));
    assert!(!is_tie_data("#1"));
    assert!(!is_tie_data("//"));
    assert!(!is_tie_data("//1"));
}
