use rust_todo::list::{add_todolist, copy_todolist, delete_todolist, list_todolist, new_todolist};
use rust_todo::{run, Change, Command, Config, Input, Outcome, TodoError};

fn tokens(words: &[&str]) -> Vec<String> {
    words.iter().map(|word| word.to_string()).collect()
}

fn strings(words: &[&str]) -> Vec<String> {
    words.iter().map(|word| word.to_string()).collect()
}

/// A list file held in memory: `None` until the file is created.
struct Files {
    list: Option<String>,
    others: Vec<(String, String)>,
}

impl Files {
    fn new() -> Files {
        Files { list: None, others: Vec::new() }
    }

    fn read(&self, input: &Input) -> String {
        match input {
            Input::Nothing => String::new(),
            Input::List => self.list.clone().expect("the list file exists"),
            Input::File(path) => {
                let found = self.others.iter().find(|(name, _)| name == path);
                found.expect("the file exists").1.clone()
            }
        }
    }

    /// Runs one invocation and returns the lines that it shows.
    fn invoke(&mut self, words: &[&str]) -> Result<Vec<String>, TodoError> {
        let mut all = vec!["todo"];
        all.extend_from_slice(words);
        let config = Config::new(&tokens(&all))?;
        let input = self.read(&config.input());
        let outcome = run(config, &input)?;
        match outcome.change {
            Change::Keep => {}
            Change::Overwrite(text) => self.list = Some(text),
            Change::Append(text) => self.list.as_mut().expect("the list file exists").push_str(&text),
        }
        Ok(outcome.output)
    }
}

#[test]
fn new_then_list_shows_no_item() {
    let mut files = Files::new();
    assert_eq!(files.invoke(&["new"]), Ok(strings(&["Created new todo list"])));
    assert_eq!(files.list, Some(String::new()));
    assert_eq!(files.invoke(&["list"]), Ok(strings(&[])));
}

#[test]
fn new_empties_a_list_that_holds_items() {
    let mut files = Files::new();
    files.list = Some("a\nb\n".to_string());
    files.invoke(&["new"]).unwrap();
    assert_eq!(files.list, Some(String::new()));
    assert_eq!(files.invoke(&["list"]), Ok(strings(&[])));
}

#[test]
fn add_then_list_shows_the_item_at_position_zero() {
    let mut files = Files::new();
    files.invoke(&["new"]).unwrap();
    assert_eq!(files.invoke(&["add", "buy milk"]), Ok(strings(&[])));
    assert_eq!(files.list, Some("buy milk\n".to_string()));
    assert_eq!(files.invoke(&["list"]), Ok(strings(&["0. buy milk"])));
}

#[test]
fn add_takes_the_item_from_several_words() {
    let mut files = Files::new();
    files.invoke(&["new"]).unwrap();
    files.invoke(&["add", "buy", "milk"]).unwrap();
    assert_eq!(files.invoke(&["list"]), Ok(strings(&["0. buy milk"])));
}

#[test]
fn add_of_an_empty_item_makes_a_blank_line() {
    let mut files = Files::new();
    files.invoke(&["new"]).unwrap();
    files.invoke(&["add", ""]).unwrap();
    assert_eq!(files.list, Some("\n".to_string()));
    assert_eq!(files.invoke(&["list"]), Ok(strings(&["0. "])));
}

#[test]
fn delete_past_the_end_is_out_of_bounds_and_changes_nothing() {
    for count in 0..4 {
        let mut files = Files::new();
        files.invoke(&["new"]).unwrap();
        for n in 0..count {
            files.invoke(&["add", format!("item {n}").as_str()]).unwrap();
        }
        let before = files.list.clone();
        let index = count.to_string();
        assert_eq!(files.invoke(&["delete", index.as_str()]), Err(TodoError::IndexOutOfBounds));
        assert_eq!(files.list, before);
    }
}

#[test]
fn delete_far_past_the_end_is_out_of_bounds() {
    let mut files = Files::new();
    files.invoke(&["new"]).unwrap();
    files.invoke(&["add", "a"]).unwrap();
    let largest = usize::MAX.to_string();
    assert_eq!(files.invoke(&["delete", largest.as_str()]), Err(TodoError::IndexOutOfBounds));
    assert_eq!(files.list, Some("a\n".to_string()));
}

#[test]
fn delete_moves_later_items_up() {
    let mut files = Files::new();
    files.invoke(&["new"]).unwrap();
    for item in ["a", "b", "c"] {
        files.invoke(&["add", item]).unwrap();
    }
    assert_eq!(files.invoke(&["list"]), Ok(strings(&["0. a", "1. b", "2. c"])));
    assert_eq!(files.invoke(&["delete", "1"]), Ok(strings(&[])));
    assert_eq!(files.list, Some("a\nc\n".to_string()));
    assert_eq!(files.invoke(&["list"]), Ok(strings(&["0. a", "1. c"])));
}

#[test]
fn delete_of_the_first_and_of_the_last_item() {
    let mut files = Files::new();
    files.list = Some("a\nb\nc\n".to_string());
    files.invoke(&["delete", "0"]).unwrap();
    assert_eq!(files.list, Some("b\nc\n".to_string()));
    files.invoke(&["delete", "1"]).unwrap();
    assert_eq!(files.list, Some("b\n".to_string()));
    files.invoke(&["delete", "0"]).unwrap();
    assert_eq!(files.list, Some(String::new()));
}

#[test]
fn delete_ends_every_line_that_stays_with_a_line_feed() {
    assert_eq!(
        delete_todolist("a\nb\nc", 0),
        Ok(Outcome { change: Change::Overwrite("b\nc\n".to_string()), output: vec![] })
    );
    assert_eq!(
        delete_todolist("a\r\nb\r\nc\r\n", 1),
        Ok(Outcome { change: Change::Overwrite("a\nc\n".to_string()), output: vec![] })
    );
    assert_eq!(delete_todolist("", 0), Err(TodoError::IndexOutOfBounds));
    assert_eq!(delete_todolist("a\nb\nc", 3), Err(TodoError::IndexOutOfBounds));
}

#[test]
fn copy_appends_the_other_file_as_it_is() {
    let mut files = Files::new();
    files.others.push(("notes.txt".to_string(), "x\ny\n".to_string()));
    files.invoke(&["new"]).unwrap();
    files.invoke(&["add", "first"]).unwrap();
    assert_eq!(files.invoke(&["copy", "notes.txt"]), Ok(strings(&[])));
    assert_eq!(files.list, Some("first\nx\ny\n".to_string()));
    assert_eq!(files.invoke(&["list"]), Ok(strings(&["0. first", "1. x", "2. y"])));
}

#[test]
fn copy_adds_no_line_feed_of_its_own() {
    assert_eq!(
        copy_todolist("x\ny"),
        Outcome { change: Change::Append("x\ny".to_string()), output: vec![] }
    );
    assert_eq!(
        copy_todolist(""),
        Outcome { change: Change::Append(String::new()), output: vec![] }
    );
}

#[test]
fn each_operation_names_its_change() {
    assert_eq!(
        new_todolist(),
        Outcome {
            change: Change::Overwrite(String::new()),
            output: strings(&["Created new todo list"]),
        }
    );
    assert_eq!(
        add_todolist("buy milk".to_string()),
        Outcome { change: Change::Append("buy milk\n".to_string()), output: vec![] }
    );
    assert_eq!(
        list_todolist("a\nb"),
        Outcome { change: Change::Keep, output: strings(&["0. a", "1. b"]) }
    );
}

#[test]
fn listing_counts_past_nine() {
    let contents = "x\n".repeat(12);
    let shown = list_todolist(&contents).output;
    assert_eq!(shown.len(), 12);
    assert_eq!(shown[9], "9. x");
    assert_eq!(shown[10], "10. x");
    assert_eq!(shown[11], "11. x");
}

#[test]
fn commands_name_the_text_they_need() {
    assert_eq!(Command::New.input(), Input::Nothing);
    assert_eq!(Command::List.input(), Input::List);
    assert_eq!(Command::Add("a".to_string()).input(), Input::Nothing);
    assert_eq!(Command::Copy("p".to_string()).input(), Input::File("p".to_string()));
    assert_eq!(Command::Delete(3).input(), Input::List);
}

#[test]
fn configurations_name_the_text_they_need() {
    let input = |words: &[&str]| Config::new(&tokens(words)).unwrap().input();
    assert_eq!(input(&["todo", "new"]), Input::Nothing);
    assert_eq!(input(&["todo", "list"]), Input::List);
    assert_eq!(input(&["todo", "add", "a"]), Input::Nothing);
    assert_eq!(input(&["todo", "copy", "p", "q"]), Input::File("p".to_string()));
    assert_eq!(input(&["todo", "delete", "0"]), Input::List);
    assert_eq!(input(&["todo", "frobnicate"]), Input::Nothing);
    let hand_made = Config { cmd: "delete".to_string(), args: Some("x".to_string()) };
    assert_eq!(hand_made.input(), Input::Nothing);
}

#[test]
fn commands_are_carried_out_on_their_input() {
    assert_eq!(Command::New.apply(""), Ok(new_todolist()));
    assert_eq!(Command::List.apply("a\n"), Ok(list_todolist("a\n")));
    assert_eq!(Command::Add("a".to_string()).apply(""), Ok(add_todolist("a".to_string())));
    assert_eq!(Command::Copy("p".to_string()).apply("x\n"), Ok(copy_todolist("x\n")));
    assert_eq!(Command::Delete(0).apply("a\nb\n"), delete_todolist("a\nb\n", 0));
    assert_eq!(Command::Delete(2).apply("a\nb\n"), Err(TodoError::IndexOutOfBounds));
}

#[test]
fn run_refuses_an_unrecognized_command() {
    let config = Config::new(&tokens(&["todo", "remove"])).unwrap();
    assert_eq!(run(config, ""), Err(TodoError::UnrecognizedCommand));
}

#[test]
fn run_refuses_a_hand_made_delete_with_a_bad_index() {
    let config = Config { cmd: "delete".to_string(), args: Some("one".to_string()) };
    assert_eq!(run(config, "a\n"), Err(TodoError::Parse));
}
