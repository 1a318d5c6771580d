//! What each command does to the list.
//!
//! Nothing here touches a file. A command says which text it has to be
//! handed ([`Input`]); given that text it says how the list file changes
//! ([`Change`]) and which lines are shown to the user. The caller reads the
//! text, carries out the change and prints the lines.

use vstd::prelude::*;
use vstd::string::StringExecFns;

use crate::config::{command_of, Command, CommandView, Config};
use crate::error::TodoError;
use crate::lines::{
    is_item, is_single_line, is_terminated, join_lines, joined, lemma_items_round_trip,
    lemma_joined_is_terminated, lemma_lines_are_single, lemma_lines_of_concat,
    lemma_lines_of_joined, lemma_lines_of_one, lines_of, split_lines, without_cr,
};
use crate::number::{decimal, parse_index, to_decimal};
use crate::text::same_text;

verus! {

/// The text that a command has to be handed before it can be carried out.
#[derive(Clone, Debug, PartialEq, Eq)]
pub enum Input {
    /// No text: the command is handed the empty string.
    Nothing,
    /// The full contents of the list file.
    List,
    /// The full contents of the file at this path.
    File(String),
}

/// What an [`Input`] holds, as plain text.
pub enum InputView {
    Nothing,
    List,
    File(Seq<char>),
}

impl View for Input {
    type V = InputView;

    open spec fn view(&self) -> InputView {
        match self {
            Input::Nothing => InputView::Nothing,
            Input::List => InputView::List,
            Input::File(path) => InputView::File(path@),
        }
    }
}

/// How the list file changes when a command is carried out.
#[derive(Clone, Debug, PartialEq, Eq)]
pub enum Change {
    /// The file stays as it is.
    Keep,
    /// The file is created if need be, and holds this text and nothing else.
    Overwrite(String),
    /// This text is added to the end of the file, which must exist.
    Append(String),
}

/// What a [`Change`] holds, as plain text.
pub enum ChangeView {
    Keep,
    Overwrite(Seq<char>),
    Append(Seq<char>),
}

impl View for Change {
    type V = ChangeView;

    open spec fn view(&self) -> ChangeView {
        match self {
            Change::Keep => ChangeView::Keep,
            Change::Overwrite(text) => ChangeView::Overwrite(text@),
            Change::Append(text) => ChangeView::Append(text@),
        }
    }
}

impl ChangeView {
    /// The contents of the list file after the change, given its contents
    /// before.
    pub open spec fn applied_to(self, contents: Seq<char>) -> Seq<char> {
        match self {
            ChangeView::Keep => contents,
            ChangeView::Overwrite(text) => text,
            ChangeView::Append(text) => contents + text,
        }
    }
}

/// What carrying out a command comes to: the change to the list file, and
/// the lines to show to the user once the change is made.
#[derive(Clone, Debug, PartialEq, Eq)]
pub struct Outcome {
    pub change: Change,
    pub output: Vec<String>,
}

/// What an [`Outcome`] holds, as plain text.
pub struct OutcomeView {
    pub change: ChangeView,
    pub output: Seq<Seq<char>>,
}

impl View for Outcome {
    type V = OutcomeView;

    open spec fn view(&self) -> OutcomeView {
        OutcomeView { change: self.change@, output: self.output.deep_view() }
    }
}

/// The lines that show a list file with the contents `contents`: one for
/// each item, the item's position counted from zero, a full stop, a space,
/// and the item.
pub open spec fn listing(contents: Seq<char>) -> Seq<Seq<char>> {
    let items = lines_of(contents);
    Seq::new(items.len(), |i: int| decimal(i as nat) + seq!['.', ' '] + items[i])
}

/// The text that a command has to be handed.
pub open spec fn input_of(command: CommandView) -> InputView {
    match command {
        CommandView::New => InputView::Nothing,
        CommandView::List => InputView::List,
        CommandView::Add(_) => InputView::Nothing,
        CommandView::Copy(path) => InputView::File(path),
        CommandView::Delete(_) => InputView::List,
    }
}

/// What `new` comes to: the list file is emptied, and the user is told so.
pub open spec fn new_outcome() -> OutcomeView {
    OutcomeView {
        change: ChangeView::Overwrite(Seq::empty()),
        output: seq!["Created new todo list"@],
    }
}

/// What `list` comes to on a list file with the contents `contents`: the
/// file stays as it is, and its listing is shown.
pub open spec fn list_outcome(contents: Seq<char>) -> OutcomeView {
    OutcomeView { change: ChangeView::Keep, output: listing(contents) }
}

/// What `add` comes to: `item` and a line feed are added to the end of the
/// list file.
pub open spec fn add_outcome(item: Seq<char>) -> OutcomeView {
    OutcomeView { change: ChangeView::Append(item + seq!['\n']), output: Seq::empty() }
}

/// What `copy` comes to for another file with the contents `source`: they
/// are added to the end of the list file as they are.
pub open spec fn copy_outcome(source: Seq<char>) -> OutcomeView {
    OutcomeView { change: ChangeView::Append(source), output: Seq::empty() }
}

/// What `delete` comes to on a list file with the contents `contents`: the
/// items but the one at `index` are written out again, each ended by a line
/// feed. Where `index` is the position of no item, the command is refused
/// as out of bounds.
pub open spec fn delete_outcome(contents: Seq<char>, index: usize) -> Result<
    OutcomeView,
    TodoError,
> {
    if index < lines_of(contents).len() {
        Ok(
            OutcomeView {
                change: ChangeView::Overwrite(joined(lines_of(contents).remove(index as int))),
                output: Seq::empty(),
            },
        )
    } else {
        Err(TodoError::IndexOutOfBounds)
    }
}

/// What carrying out `command` comes to, given the text that it asked for.
pub open spec fn outcome_of(command: CommandView, input: Seq<char>) -> Result<
    OutcomeView,
    TodoError,
> {
    match command {
        CommandView::New => Ok(new_outcome()),
        CommandView::List => Ok(list_outcome(input)),
        CommandView::Add(item) => Ok(add_outcome(item)),
        CommandView::Copy(_) => Ok(copy_outcome(input)),
        CommandView::Delete(index) => delete_outcome(input, index),
    }
}

/// The view of a result that holds an [`Outcome`].
pub open spec fn outcome_result_view(result: Result<Outcome, TodoError>) -> Result<
    OutcomeView,
    TodoError,
> {
    match result {
        Ok(outcome) => Ok(outcome@),
        Err(error) => Err(error),
    }
}

/// Starts a new, empty list, whatever the list file held before.
pub fn new_todolist() -> (outcome: Outcome)
    ensures
        outcome@ == new_outcome(),
{
    let mut output: Vec<String> = Vec::new();
    output.push("Created new todo list".to_owned());
    proof {
        assert(output.deep_view() == seq!["Created new todo list"@]);
    }
    Outcome { change: Change::Overwrite(String::new()), output }
}

/// Lists the items of a list file with the contents `contents`, each with
/// its position.
pub fn list_todolist(contents: &str) -> (outcome: Outcome)
    ensures
        outcome@ == list_outcome(contents@),
{
    let items = split_lines(contents);
    let mut output: Vec<String> = Vec::new();
    let mut i: usize = 0;
    while i < items.len()
        invariant
            i <= items.len(),
            items.deep_view() == lines_of(contents@),
            output.deep_view() == listing(contents@).take(i as int),
        decreases items.len() - i,
    {
        let mut line = to_decimal(i);
        line.push('.');
        line.push(' ');
        line.append(items[i].as_str());
        let ghost before = output.deep_view();
        output.push(line);
        proof {
            assert(items[i as int]@ == lines_of(contents@)[i as int]);
            assert(line@ == decimal(i as nat) + seq!['.', ' '] + items[i as int]@);
            assert(output.deep_view() == before.push(line@));
            assert(listing(contents@).take(i + 1) == listing(contents@).take(i as int).push(
                listing(contents@)[i as int],
            ));
        }
        i += 1;
    }
    proof {
        assert(listing(contents@).take(i as int) == listing(contents@));
    }
    Outcome { change: Change::Keep, output }
}

/// Adds `item` to the end of the list, as a line of its own.
pub fn add_todolist(item: String) -> (outcome: Outcome)
    ensures
        outcome@ == add_outcome(item@),
{
    let mut text = item;
    text.push('\n');
    proof {
        assert(item@.push('\n') == item@ + seq!['\n']);
    }
    let output: Vec<String> = Vec::new();
    proof {
        assert(output.deep_view() == Seq::<Seq<char>>::empty());
    }
    Outcome { change: Change::Append(text), output }
}

/// Adds the contents of another file, `source`, to the end of the list as
/// they are.
pub fn copy_todolist(source: &str) -> (outcome: Outcome)
    ensures
        outcome@ == copy_outcome(source@),
{
    let output: Vec<String> = Vec::new();
    proof {
        assert(output.deep_view() == Seq::<Seq<char>>::empty());
    }
    Outcome { change: Change::Append(source.to_owned()), output }
}

/// Removes the item at position `index` from a list file with the contents
/// `contents`. The items that stay are written out again in their order,
/// each ended by a line feed.
pub fn delete_todolist(contents: &str, index: usize) -> (outcome: Result<Outcome, TodoError>)
    ensures
        outcome_result_view(outcome) == delete_outcome(contents@, index),
{
    let mut items = split_lines(contents);
    if index >= items.len() {
        return Err(TodoError::IndexOutOfBounds);
    }
    let ghost before = items.deep_view();
    let _ = items.remove(index);
    proof {
        assert(items.deep_view() == before.remove(index as int));
    }
    let text = join_lines(&items);
    let output: Vec<String> = Vec::new();
    proof {
        assert(output.deep_view() == Seq::<Seq<char>>::empty());
    }
    Ok(Outcome { change: Change::Overwrite(text), output })
}

impl Command {
    /// Says which text the command has to be handed.
    pub fn input(&self) -> (input: Input)
        ensures
            input@ == input_of(self@),
    {
        match self {
            Command::New => Input::Nothing,
            Command::List => Input::List,
            Command::Add(_) => Input::Nothing,
            Command::Copy(path) => Input::File(path.clone()),
            Command::Delete(_) => Input::List,
        }
    }

    /// Carries the command out on `input`, the text that it asked for.
    pub fn apply(self, input: &str) -> (outcome: Result<Outcome, TodoError>)
        ensures
            outcome_result_view(outcome) == outcome_of(self@, input@),
    {
        match self {
            Command::New => Ok(new_todolist()),
            Command::List => Ok(list_todolist(input)),
            Command::Add(item) => Ok(add_todolist(item)),
            Command::Copy(_) => Ok(copy_todolist(input)),
            Command::Delete(index) => delete_todolist(input, index),
        }
    }
}

/// The text that [`run`] has to be handed for `config`: that of the command
/// it asks for, and none where it asks for no command that can be carried
/// out.
pub open spec fn input_for(config: crate::config::ConfigView) -> InputView {
    match command_of(config) {
        Ok(command) => input_of(command),
        Err(_) => InputView::Nothing,
    }
}

/// What [`run`] returns for `config` and the text `input`.
pub open spec fn run_result(config: crate::config::ConfigView, input: Seq<char>) -> Result<
    OutcomeView,
    TodoError,
> {
    match command_of(config) {
        Ok(command) => outcome_of(command, input),
        Err(error) => Err(error),
    }
}

impl Config {
    /// Says which text [`run`] has to be handed for this configuration.
    pub fn input(&self) -> (input: Input)
        requires
            self.has_payload(),
        ensures
            input@ == input_for(self@),
    {
        let cmd = self.cmd.as_str();
        if same_text(cmd, "new") {
            Input::Nothing
        } else if same_text(cmd, "list") {
            Input::List
        } else if same_text(cmd, "add") {
            Input::Nothing
        } else if same_text(cmd, "copy") {
            Input::File(self.args.as_ref().unwrap().clone())
        } else if same_text(cmd, "delete") {
            if parse_index(self.args.as_ref().unwrap().as_str()).is_some() {
                Input::List
            } else {
                Input::Nothing
            }
        } else {
            Input::Nothing
        }
    }
}

/// Carries out what `config` asks for, on the text that [`Config::input`]
/// named:
///
/// * `new` starts a new, empty list
/// * `list` shows the items of the list
/// * `add` `item` puts a new item at the end of the list
/// * `copy` `path` puts the contents of a file at the end of the list
/// * `delete` `index` removes an item from the list
pub fn run(config: Config, input: &str) -> (outcome: Result<Outcome, TodoError>)
    requires
        config.has_payload(),
    ensures
        outcome_result_view(outcome) == run_result(config@, input@),
{
    match config.command() {
        Ok(command) => command.apply(input),
        Err(error) => Err(error),
    }
}

/// The contents of the list file once `command` has been carried out on
/// `input`, given its contents before. A command that fails leaves the file
/// as it was.
pub open spec fn contents_after(contents: Seq<char>, command: CommandView, input: Seq<char>) -> Seq<
    char,
> {
    match outcome_of(command, input) {
        Ok(outcome) => outcome.change.applied_to(contents),
        Err(_) => contents,
    }
}

/// The contents of the list file once each of `items` has been added to it
/// in turn.
pub open spec fn after_adding(contents: Seq<char>, items: Seq<Seq<char>>) -> Seq<char>
    decreases items.len(),
{
    if items.len() == 0 {
        contents
    } else {
        contents_after(
            after_adding(contents, items.drop_last()),
            CommandView::Add(items.last()),
            Seq::empty(),
        )
    }
}

/// A new list holds no item, whatever the list file held before.
pub proof fn lemma_new_list_is_empty(contents: Seq<char>, input: Seq<char>)
    ensures
        contents_after(contents, CommandView::New, input) == Seq::<char>::empty(),
        lines_of(contents_after(contents, CommandView::New, input)).len() == 0,
        listing(contents_after(contents, CommandView::New, input)).len() == 0,
{
}

/// Adding an item to a list whose last line is complete puts exactly that
/// item after the items that were there, and changes none of them.
pub proof fn lemma_add_appends_item(contents: Seq<char>, item: Seq<char>, input: Seq<char>)
    requires
        is_terminated(contents),
        is_single_line(item),
    ensures
        lines_of(contents_after(contents, CommandView::Add(item), input)) == lines_of(
            contents,
        ).push(without_cr(item)),
{
    lemma_lines_of_concat(contents, item + seq!['\n']);
    lemma_lines_of_one(item);
    assert(lines_of(contents) + seq![without_cr(item)] == lines_of(contents).push(
        without_cr(item),
    ));
}

/// Adding items to an empty list writes them out one per line, and the list
/// then holds as many items as were added.
pub proof fn lemma_adding_to_empty_list(items: Seq<Seq<char>>)
    requires
        forall|i: int| 0 <= i < items.len() ==> is_single_line(#[trigger] items[i]),
    ensures
        after_adding(Seq::empty(), items) == joined(items),
        lines_of(after_adding(Seq::empty(), items)) == items.map_values(
            |item: Seq<char>| without_cr(item),
        ),
        lines_of(after_adding(Seq::empty(), items)).len() == items.len(),
    decreases items.len(),
{
    if items.len() > 0 {
        lemma_adding_to_empty_list(items.drop_last());
        assert(joined(items.drop_last()) + (items.last() + seq!['\n']) == joined(items));
    }
    lemma_lines_of_joined(items);
}

/// After a new list has had some items added, a `delete` of the position
/// just past the last item, or of any later one, is refused as out of
/// bounds, and the list file stays as it is.
pub proof fn lemma_delete_past_end_is_refused(
    before: Seq<char>,
    input: Seq<char>,
    items: Seq<Seq<char>>,
    index: usize,
)
    requires
        forall|i: int| 0 <= i < items.len() ==> is_single_line(#[trigger] items[i]),
        index >= items.len(),
    ensures
        ({
            let contents = after_adding(contents_after(before, CommandView::New, input), items);
            &&& outcome_of(CommandView::Delete(index), contents) == Err::<OutcomeView, TodoError>(
                TodoError::IndexOutOfBounds,
            )
            &&& contents_after(contents, CommandView::Delete(index), contents) == contents
        }),
{
    lemma_adding_to_empty_list(items);
}

/// Deleting the item at a position leaves the other items in their order,
/// so that every item after it moves up by one position.
pub proof fn lemma_delete_removes_item(contents: Seq<char>, index: usize)
    requires
        index < lines_of(contents).len(),
        forall|i: int|
            0 <= i < lines_of(contents).len() ==> without_cr(#[trigger] lines_of(contents)[i])
                == lines_of(contents)[i],
    ensures
        lines_of(contents_after(contents, CommandView::Delete(index), contents)) == lines_of(
            contents,
        ).remove(index as int),
{
    let kept = lines_of(contents).remove(index as int);
    lemma_lines_are_single(contents);
    assert forall|i: int| 0 <= i < kept.len() implies is_item(#[trigger] kept[i]) by {
        if i < index {
            assert(kept[i] == lines_of(contents)[i]);
        } else {
            assert(kept[i] == lines_of(contents)[i + 1]);
        }
    }
    lemma_items_round_trip(kept);
}

/// Copying a file into the list adds the file's text to the end of the list
/// file as it is. Where the last line of the list was complete, the list
/// then holds the items that it held, followed by the lines of the file.
pub proof fn lemma_copy_appends_lines(contents: Seq<char>, path: Seq<char>, source: Seq<char>)
    ensures
        contents_after(contents, CommandView::Copy(path), source) == contents + source,
        is_terminated(contents) ==> lines_of(
            contents_after(contents, CommandView::Copy(path), source),
        ) == lines_of(contents) + lines_of(source),
{
    if is_terminated(contents) {
        lemma_lines_of_concat(contents, source);
    }
}

/// Whatever a command does to the list file, a file whose last line was
/// complete has a complete last line afterwards, provided that a copied
/// file has one too.
pub proof fn lemma_commands_keep_termination(
    contents: Seq<char>,
    command: CommandView,
    input: Seq<char>,
)
    requires
        is_terminated(contents),
        command is Copy ==> is_terminated(input),
    ensures
        is_terminated(contents_after(contents, command, input)),
{
    match command {
        CommandView::Delete(index) => {
            if index < lines_of(input).len() {
                lemma_joined_is_terminated(lines_of(input).remove(index as int));
            }
        },
        CommandView::Add(item) => {
            assert((contents + (item + seq!['\n'])).last() == '\n');
        },
        CommandView::Copy(_) => {
            if input.len() > 0 {
                assert((contents + input).last() == input.last());
            } else {
                assert(contents + input == contents);
            }
        },
        _ => {},
    }
}

} // verus!
