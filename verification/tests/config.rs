use rust_todo::{Command, Config, TodoError};

fn tokens(words: &[&str]) -> Vec<String> {
    words.iter().map(|word| word.to_string()).collect()
}

#[test]
fn program_name_alone_is_a_usage_error() {
    assert_eq!(Config::new(&tokens(&["todo"])), Err(TodoError::Usage));
}

#[test]
fn no_token_at_all_is_a_usage_error() {
    assert_eq!(Config::new(&tokens(&[])), Err(TodoError::Usage));
}

#[test]
fn new_and_list_take_no_payload() {
    assert_eq!(
        Config::new(&tokens(&["todo", "new"])),
        Ok(Config { cmd: "new".to_string(), args: None })
    );
    assert_eq!(
        Config::new(&tokens(&["todo", "list"])),
        Ok(Config { cmd: "list".to_string(), args: None })
    );
}

#[test]
fn new_passes_over_further_tokens() {
    assert_eq!(
        Config::new(&tokens(&["todo", "new", "extra"])),
        Ok(Config { cmd: "new".to_string(), args: None })
    );
}

#[test]
fn add_joins_the_remaining_words_with_single_spaces() {
    assert_eq!(
        Config::new(&tokens(&["todo", "add", "buy", "milk", "today"])),
        Ok(Config { cmd: "add".to_string(), args: Some("buy milk today".to_string()) })
    );
}

#[test]
fn add_keeps_a_single_word_as_it_is() {
    assert_eq!(
        Config::new(&tokens(&["todo", "add", "buy milk"])),
        Ok(Config { cmd: "add".to_string(), args: Some("buy milk".to_string()) })
    );
}

#[test]
fn add_keeps_an_empty_word() {
    assert_eq!(
        Config::new(&tokens(&["todo", "add", ""])),
        Ok(Config { cmd: "add".to_string(), args: Some(String::new()) })
    );
    assert_eq!(
        Config::new(&tokens(&["todo", "add", "a", "", "b"])),
        Ok(Config { cmd: "add".to_string(), args: Some("a  b".to_string()) })
    );
}

#[test]
fn add_without_an_item_is_a_usage_error() {
    assert_eq!(Config::new(&tokens(&["todo", "add"])), Err(TodoError::Usage));
}

#[test]
fn copy_without_a_path_is_a_usage_error() {
    assert_eq!(Config::new(&tokens(&["todo", "copy"])), Err(TodoError::Usage));
}

#[test]
fn delete_without_an_index_is_a_usage_error() {
    assert_eq!(Config::new(&tokens(&["todo", "delete"])), Err(TodoError::Usage));
}

#[test]
fn copy_takes_the_third_token_only() {
    assert_eq!(
        Config::new(&tokens(&["todo", "copy", "notes.txt", "more", "words"])),
        Ok(Config { cmd: "copy".to_string(), args: Some("notes.txt".to_string()) })
    );
}

#[test]
fn delete_keeps_the_index_as_written() {
    assert_eq!(
        Config::new(&tokens(&["todo", "delete", "2"])),
        Ok(Config { cmd: "delete".to_string(), args: Some("2".to_string()) })
    );
    assert_eq!(
        Config::new(&tokens(&["todo", "delete", "+07", "ignored"])),
        Ok(Config { cmd: "delete".to_string(), args: Some("+07".to_string()) })
    );
}

#[test]
fn delete_with_a_word_for_an_index_is_a_parse_error() {
    assert_eq!(Config::new(&tokens(&["todo", "delete", "two"])), Err(TodoError::Parse));
    assert_eq!(Config::new(&tokens(&["todo", "delete", "-1"])), Err(TodoError::Parse));
    assert_eq!(Config::new(&tokens(&["todo", "delete", ""])), Err(TodoError::Parse));
    assert_eq!(Config::new(&tokens(&["todo", "delete", " 1"])), Err(TodoError::Parse));
    assert_eq!(Config::new(&tokens(&["todo", "delete", "1.0"])), Err(TodoError::Parse));
}

#[test]
fn delete_with_an_index_too_large_is_a_parse_error() {
    let too_large = format!("{}0", usize::MAX);
    assert_eq!(
        Config::new(&tokens(&["todo", "delete", too_large.as_str()])),
        Err(TodoError::Parse)
    );
}

#[test]
fn unknown_name_is_kept_until_the_command_is_asked_for() {
    let config = Config::new(&tokens(&["todo", "remove", "1"]));
    assert_eq!(config, Ok(Config { cmd: "remove".to_string(), args: None }));
    assert_eq!(config.unwrap().command(), Err(TodoError::UnrecognizedCommand));
}

#[test]
fn command_names_are_case_sensitive() {
    let config = Config::new(&tokens(&["todo", "New"])).unwrap();
    assert_eq!(config.cmd, "New");
    assert_eq!(config.command(), Err(TodoError::UnrecognizedCommand));
    let config = Config::new(&tokens(&["todo", "ADD"])).unwrap();
    assert_eq!(config.args, None);
    assert_eq!(config.command(), Err(TodoError::UnrecognizedCommand));
}

#[test]
fn configurations_become_typed_commands() {
    let command = |words: &[&str]| Config::new(&tokens(words)).unwrap().command();
    assert_eq!(command(&["todo", "new"]), Ok(Command::New));
    assert_eq!(command(&["todo", "list"]), Ok(Command::List));
    assert_eq!(command(&["todo", "add", "buy", "milk"]), Ok(Command::Add("buy milk".to_string())));
    assert_eq!(command(&["todo", "copy", "a.txt"]), Ok(Command::Copy("a.txt".to_string())));
    assert_eq!(command(&["todo", "delete", "12"]), Ok(Command::Delete(12)));
    assert_eq!(command(&["todo", "delete", "+0"]), Ok(Command::Delete(0)));
}

#[test]
fn hand_made_delete_with_a_bad_index_is_a_parse_error() {
    let config = Config { cmd: "delete".to_string(), args: Some("x".to_string()) };
    assert_eq!(config.command(), Err(TodoError::Parse));
}

#[test]
fn every_error_has_its_message() {
    assert_eq!(
        TodoError::Usage.message(),
        "not enough arguments. Usage: list, new, add [name], copy [path], delete [index]"
    );
    assert_eq!(
        TodoError::Parse.message(),
        "invalid index. Usage: list, new, add [name], copy [path], delete [index]"
    );
    assert_eq!(
        TodoError::UnrecognizedCommand.message(),
        "unrecognized command. Usage: list, new, add [name], copy [path], delete [index]"
    );
    assert_eq!(TodoError::IndexOutOfBounds.message(), "index out of bounds.");
}
