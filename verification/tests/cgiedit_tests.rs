use privoxy::cgiedit::{EditableFile, FileLine, LineData, LineType};

#[test]
fn test_remove_comments() {
    let file = EditableFile::new("test", 0);
    assert_eq!(file.remove_comments("hello # comment"), "hello");
    assert_eq!(file.remove_comments("hello"), "hello");
    assert_eq!(file.remove_comments("# comment"), "");
}

#[test]
fn remove_comments_keeps_quoted_hash() {
    let file = EditableFile::new("test", 0);
    assert_eq!(file.remove_comments("a \"b#c\" d # tail"), "a \"b#c\" d");
}

fn raw(lines: &[&str]) -> Vec<String> {
    lines.iter().map(|s| s.to_string()).collect()
}

#[test]
fn raw_lines_join_and_classify() {
    let file = EditableFile::new("test", 0);
    let lines = file.process_raw_lines(raw(&["# head", "{+block \\", "  +filter{x}}", "example.com # why", ""]));
    assert_eq!(lines.len(), 4);
    assert_eq!(lines[0].line_type, LineType::Blank);
    assert_eq!(lines[1].raw, "{+block   +filter{x}}");
    assert_eq!(lines[1].unprocessed, "{+block   +filter{x}}");
    assert_eq!(lines[2].unprocessed, "example.com");
    assert_eq!(lines[3].line_type, LineType::Blank);
}

fn loaded(text: &[&str]) -> EditableFile {
    let mut file = EditableFile::new("user.action", 1);
    file.lines = file.process_raw_lines(raw(text));
    file
}

#[test]
fn parse_sections() {
    let mut file = loaded(&[
        "{{settings}}",
        "for-sure=1",
        "{{description}}",
        "Some words",
        "{{alias}}",
        "+crunch=+block",
        "{+block{ads}}",
        "ads.example.com",
        "",
        "{-block}",
        "free.example.com",
    ]);
    assert!(file.parse().is_ok());
    let types: Vec<LineType> = file.lines.iter().map(|l| l.line_type).collect();
    assert_eq!(
        types,
        vec![
            LineType::SettingsHeader,
            LineType::SettingsEntry,
            LineType::DescriptionHeader,
            LineType::DescriptionEntry,
            LineType::AliasHeader,
            LineType::AliasEntry,
            LineType::Action,
            LineType::Url,
            LineType::Blank,
            LineType::Action,
            LineType::Url,
        ]
    );
    match &file.lines[1].data {
        LineData::Setting { name, string_value, int_value } => {
            assert_eq!(name, "for-sure");
            assert_eq!(string_value, "1");
            assert_eq!(*int_value, Some(1));
        }
        _ => panic!("setting expected"),
    }
    match &file.lines[6].data {
        LineData::Action(a) => assert_eq!(a, "+block{ads}"),
        _ => panic!("action expected"),
    }
    let text = file.to_text();
    assert!(text.starts_with("{{settings}}\nfor-sure=1\n{{description}}\n"));
    assert!(text.contains("{+block{ads}}\nads.example.com\n\n{-block}\n"));
}

#[test]
fn parse_errors_are_recorded() {
    let mut file = loaded(&["example.com"]);
    assert!(file.parse().is_err());
    assert_eq!(file.parse_error_index, Some(0));
    assert_eq!(file.parse_error_text.as_deref(), Some("First (non-comment) line must contain a header"));

    let mut file = loaded(&["{{settings}}", "no pair here"]);
    assert!(file.parse().is_err());
    assert_eq!(file.parse_error_index, Some(1));
    assert_eq!(file.parse_error_text.as_deref(), Some("Expected name=value pair"));
}

#[test]
fn editing_lines() {
    let mut file = loaded(&["{+block}", "a.example"]);
    file.parse().unwrap();
    file.insert_url_pattern(0, "b.example").unwrap();
    assert_eq!(file.lines.len(), 3);
    assert_eq!(file.lines[1].unprocessed, "b.example");
    assert!(file.insert_url_pattern(1, "c.example").is_err());
    assert!(file.insert_url_pattern(9, "c.example").is_err());
    file.update_action(0, "-block").unwrap();
    assert!(matches!(&file.lines[0].data, LineData::Action(a) if a == "-block"));
    assert!(file.update_action(1, "+block").is_err());
    file.update_url_pattern(2, "z.example").unwrap();
    assert_eq!(file.get_line(2).unwrap().raw, "z.example");
    file.delete_line(1).unwrap();
    assert_eq!(file.lines.len(), 2);
    assert!(file.delete_line(5).is_err());
    assert!(file.get_line(5).is_none());
    let fresh = FileLine::new("x".to_string());
    assert_eq!(fresh.line_type, LineType::Unprocessed);
}

#[test]
fn lines_can_be_changed_in_place() {
    let mut file = loaded(&["{+block}", "a.example"]);
    file.parse().unwrap();
    if let Some(line) = file.get_line_mut(1) {
        line.unprocessed = "b.example".to_string();
    }
    assert_eq!(file.lines[1].unprocessed, "b.example");
    assert!(file.get_line_mut(7).is_none());
}
