use rarian::cacher::{cache, cached_lines, load_from_cache, WriteError};

#[test]
fn a_record_is_its_line_and_a_newline() {
    assert_eq!(cache("{\"id\":1}"), Ok("{\"id\":1}\n".to_string()));
    assert_eq!(cache("x"), Ok("x\n".to_string()));
}

#[test]
fn records_that_would_not_read_back_are_refused() {
    assert_eq!(cache(""), Err(WriteError::EmptyRecord));
    assert_eq!(cache("a\nb"), Err(WriteError::EmbeddedNewline));
    assert_eq!(cache("\n"), Err(WriteError::EmbeddedNewline));
}

#[test]
fn lines_are_read_in_file_order_without_the_empty_ones() {
    assert_eq!(cached_lines("a\nb\nc\n"), vec!["a", "b", "c"]);
    assert_eq!(cached_lines("a\n\n\nb"), vec!["a", "b"]);
    assert_eq!(cached_lines(""), Vec::<String>::new());
    assert_eq!(cached_lines("\n\n"), Vec::<String>::new());
    assert_eq!(cached_lines("no newline"), vec!["no newline"]);
}

#[test]
fn appending_adds_one_line() {
    let mut content = String::new();
    let mut lines = 0;
    for record in ["first", "second", "third"] {
        content.push_str(&cache(record).expect("a line"));
        let read = cached_lines(&content);
        assert!(read.len() >= lines);
        lines += 1;
        assert_eq!(read.len(), lines);
        assert_eq!(read.last().expect("a line"), record);
    }
    assert_eq!(cached_lines(&content), vec!["first", "second", "third"]);
}

#[test]
fn appending_to_an_unfinished_line_loses_no_line() {
    let mut content = "a\nb".to_string();
    assert_eq!(cached_lines(&content).len(), 2);
    content.push_str(&cache("c").expect("a line"));
    assert_eq!(cached_lines(&content), vec!["a", "bc"]);
}

#[test]
fn lines_that_do_not_parse_are_skipped() {
    let parsed = vec![Some(1), None, Some(3), None, None, Some(6)];
    assert_eq!(load_from_cache(parsed), vec![1, 3, 6]);
    assert_eq!(load_from_cache(Vec::<Option<u8>>::new()), Vec::<u8>::new());
    assert_eq!(load_from_cache(vec![None::<u8>, None]), Vec::<u8>::new());
    let words = vec![Some("a".to_string()), Some("b".to_string())];
    assert_eq!(load_from_cache(words), vec!["a", "b"]);
}
