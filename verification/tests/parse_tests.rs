use todo_manager::command::{
    delete_report, parse_command, update_report, Command, UpdateReport,
};
use todo_manager::todo::{Filter, Status, TodoError, TodoId, ID_SPACE};

fn args(words: &[&str]) -> Vec<String> {
    words.iter().map(|w| String::from(*w)).collect()
}

#[test]
fn status_words_parse_exactly() {
    assert_eq!(Status::parse("pending"), Ok(Status::Pending));
    assert_eq!(Status::parse("completed"), Ok(Status::Completed));
    assert_eq!(Status::parse("Pending"), Err(TodoError::InvalidStatus));
    assert_eq!(Status::parse("all"), Err(TodoError::InvalidStatus));
    assert_eq!(Status::parse(""), Err(TodoError::InvalidStatus));
}

#[test]
fn filter_words_parse_exactly() {
    assert_eq!(Filter::parse("all"), Ok(Filter::All));
    assert_eq!(Filter::parse("pending"), Ok(Filter::Pending));
    assert_eq!(Filter::parse("completed"), Ok(Filter::Completed));
    assert_eq!(Filter::parse("done"), Err(TodoError::InvalidFilter));
    assert_eq!(Filter::parse(""), Err(TodoError::InvalidFilter));
}

#[test]
fn id_parsing_reads_24_hex_digits() {
    assert_eq!(
        TodoId::parse("000000000000000000000001"),
        Ok(TodoId { value: 1 })
    );
    assert_eq!(
        TodoId::parse("00000000000000000000000a"),
        Ok(TodoId { value: 10 })
    );
    assert_eq!(
        TodoId::parse("00000000000000000000000A"),
        Ok(TodoId { value: 10 })
    );
    assert_eq!(
        TodoId::parse("ffffffffffffffffffffffff"),
        Ok(TodoId { value: ID_SPACE - 1 })
    );
    assert_eq!(
        TodoId::parse("0123456789abcdef01234567"),
        Ok(TodoId { value: 0x0123456789abcdef01234567 })
    );
}

#[test]
fn malformed_ids_are_rejected() {
    assert_eq!(TodoId::parse(""), Err(TodoError::InvalidId));
    assert_eq!(
        TodoId::parse("00000000000000000000001"),
        Err(TodoError::InvalidId)
    );
    assert_eq!(
        TodoId::parse("0000000000000000000000001"),
        Err(TodoError::InvalidId)
    );
    assert_eq!(
        TodoId::parse("00000000000000000000000g"),
        Err(TodoError::InvalidId)
    );
    assert_eq!(
        TodoId::parse("not-an-object-id-at-all!"),
        Err(TodoError::InvalidId)
    );
}

#[test]
fn id_writes_back_as_24_lower_case_digits() {
    assert_eq!(
        TodoId { value: 255 }.to_hex(),
        "0000000000000000000000ff"
    );
    assert_eq!(
        TodoId { value: 0 }.to_hex(),
        "000000000000000000000000"
    );
    assert_eq!(
        TodoId { value: ID_SPACE - 1 }.to_hex(),
        "ffffffffffffffffffffffff"
    );
}

#[test]
fn id_parsing_and_writing_round_trip() {
    for value in [0u128, 1, 10, 255, ID_SPACE - 1, 0x0123456789abcdef01234567] {
        let id = TodoId { value };
        assert_eq!(TodoId::parse(&id.to_hex()), Ok(id));
    }
    let id = TodoId::parse("00000000000000000000BEEF").unwrap();
    assert_eq!(id.to_hex(), "00000000000000000000beef");
}

#[test]
fn create_command_keeps_description() {
    match parse_command(&args(&["create", "buy milk"])) {
        Ok(Command::Create { description }) => assert_eq!(description, "buy milk"),
        _ => panic!("expected a create command"),
    }
}

#[test]
fn list_command_carries_its_filter() {
    match parse_command(&args(&["list", "completed"])) {
        Ok(Command::List { filter }) => assert_eq!(filter, Filter::Completed),
        _ => panic!("expected a list command"),
    }
}

#[test]
fn update_command_carries_id_and_status() {
    match parse_command(&args(&["update", "000000000000000000000010", "completed"])) {
        Ok(Command::Update { id, status }) => {
            assert_eq!(id, TodoId { value: 16 });
            assert_eq!(status, Status::Completed);
        }
        _ => panic!("expected an update command"),
    }
}

#[test]
fn delete_command_carries_its_id() {
    match parse_command(&args(&["delete", "0000000000000000000000ff"])) {
        Ok(Command::Delete { id }) => assert_eq!(id, TodoId { value: 255 }),
        _ => panic!("expected a delete command"),
    }
}

#[test]
fn unknown_operation_fails_fast() {
    assert!(matches!(
        parse_command(&args(&["archive", "x"])),
        Err(TodoError::InvalidOperation)
    ));
    assert!(matches!(
        parse_command(&args(&[])),
        Err(TodoError::InvalidOperation)
    ));
}

#[test]
fn missing_arguments_fail_fast() {
    assert!(matches!(
        parse_command(&args(&["create"])),
        Err(TodoError::MissingArgument)
    ));
    assert!(matches!(
        parse_command(&args(&["list"])),
        Err(TodoError::MissingArgument)
    ));
    assert!(matches!(
        parse_command(&args(&["update", "000000000000000000000001"])),
        Err(TodoError::MissingArgument)
    ));
    assert!(matches!(
        parse_command(&args(&["delete"])),
        Err(TodoError::MissingArgument)
    ));
}

#[test]
fn bad_filter_fails_before_any_lookup() {
    assert!(matches!(
        parse_command(&args(&["list", "done"])),
        Err(TodoError::InvalidFilter)
    ));
}

#[test]
fn update_checks_status_before_id() {
    assert!(matches!(
        parse_command(&args(&["update", "bad-id", "bogus"])),
        Err(TodoError::InvalidStatus)
    ));
    assert!(matches!(
        parse_command(&args(&["update", "bad-id", "completed"])),
        Err(TodoError::InvalidId)
    ));
    assert!(matches!(
        parse_command(&args(&["delete", "bad-id"])),
        Err(TodoError::InvalidId)
    ));
}

#[test]
fn extra_arguments_are_ignored() {
    assert!(matches!(
        parse_command(&args(&["list", "all", "extra"])),
        Ok(Command::List { filter: Filter::All })
    ));
}

#[test]
fn update_report_follows_the_counts() {
    assert_eq!(update_report(1, 1), UpdateReport::Updated);
    assert_eq!(update_report(0, 0), UpdateReport::NotFound);
    assert_eq!(update_report(1, 0), UpdateReport::Unreported);
}

#[test]
fn delete_report_follows_the_count() {
    assert!(delete_report(1));
    assert!(!delete_report(0));
}
