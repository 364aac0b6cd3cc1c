use retimestamp::string_utils::range_position_string;

fn line(value: &str, start: usize, end: usize) -> Option<String> {
    range_position_string(&String::from(value), start, end)
}

#[test]
fn marks_the_span_inside_a_word() {
    assert_eq!(line("abcdef", 1, 4), Some(String::from(" └─┘  ")));
}

#[test]
fn marker_line_is_as_long_as_the_value() {
    let marked = line("abcdef", 1, 4).unwrap();
    let chars: Vec<char> = marked.chars().collect();
    assert_eq!(chars.len(), 6);
    assert_eq!(chars[0], ' ');
    assert_eq!(chars[1], '└');
    assert_eq!(chars[2], '─');
    assert_eq!(chars[3], '┘');
    assert_eq!(chars[4], ' ');
    assert_eq!(chars[5], ' ');
}

#[test]
fn marks_the_whole_value() {
    assert_eq!(line("abcd", 0, 4), Some(String::from("└──┘")));
}

#[test]
fn two_characters_get_two_corners() {
    assert_eq!(line("abcd", 2, 4), Some(String::from("  └┘")));
}

#[test]
fn one_character_gets_the_opening_corner() {
    assert_eq!(line("abc", 1, 2), Some(String::from(" └ ")));
}

#[test]
fn empty_span_has_no_line() {
    assert_eq!(line("abcdef", 3, 3), None);
    assert_eq!(line("abcdef", 0, 0), None);
}

#[test]
fn reversed_span_has_no_line() {
    assert_eq!(line("abcdef", 4, 1), None);
}

#[test]
fn span_past_the_end_has_no_line() {
    assert_eq!(line("abcdef", 1, 7), None);
    assert_eq!(line("abcdef", 7, 9), None);
    assert_eq!(line("abcdef", 6, 7), None);
}

#[test]
fn empty_value_has_no_line() {
    assert_eq!(line("", 0, 0), None);
    assert_eq!(line("", 0, 1), None);
}

#[test]
fn span_is_counted_in_characters() {
    assert_eq!(line("héllo", 0, 5), Some(String::from("└───┘")));
    assert_eq!(line("héllo", 1, 3), Some(String::from(" └┘  ")));
    assert_eq!(line("héllo", 0, 6), None);
}

#[test]
fn timestamp_of_a_migration_is_underlined() {
    let path = "db/migrate/20230115143022_add_users.rb";
    let marked = line(path, 11, 25).unwrap();
    assert_eq!(marked, "           └────────────┘             ");
    assert_eq!(marked.chars().count(), path.chars().count());
}
