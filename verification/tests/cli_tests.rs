use task_manager::cli::{carry_out, plan, Action, Outcome, Plan, TodoArgs, TodoCommands};
use task_manager::prompt::{get_task_data, Question};
use task_manager::store::save_task;
use task_manager::task::Task;

fn text(s: &str) -> String {
    s.to_string()
}

fn some(s: &str) -> Option<String> {
    Some(s.to_string())
}

fn sample() -> Vec<Task> {
    let mut tasks = Vec::new();
    save_task(&mut tasks, text("Buy milk"), None);
    save_task(&mut tasks, text("Call Bob"), some("re: meeting"));
    save_task(&mut tasks, text("Buy eggs"), None);
    tasks
}

#[test]
fn no_command_asks_for_help() {
    assert_eq!(plan(TodoArgs { command: None }), Plan::Help);
}

#[test]
fn all_tasks_lists() {
    assert_eq!(plan(TodoArgs { command: Some(TodoCommands::AllTasks) }), Plan::List);
}

#[test]
fn add_resolves_name_and_description() {
    let args = TodoArgs { command: Some(TodoCommands::Add { name: None, description: None }) };
    match plan(args) {
        Plan::Resolve { action, data } => {
            assert_eq!(action, Action::Add);
            assert_eq!(data, get_task_data(None, None, true));
            assert_eq!(data.question(), Some(Question::Name));
        },
        other => panic!("unexpected plan {:?}", other),
    }
    let args = TodoArgs {
        command: Some(TodoCommands::Add { name: some("a"), description: some("b") }),
    };
    assert_eq!(
        plan(args),
        Plan::Resolve { action: Action::Add, data: get_task_data(some("a"), some("b"), true) }
    );
    let args = TodoArgs { command: Some(TodoCommands::Add { name: some("a"), description: None }) };
    match plan(args) {
        Plan::Resolve { action, data } => {
            assert_eq!(action, Action::Add);
            assert_eq!(data.question(), Some(Question::Confirm));
        },
        other => panic!("unexpected plan {:?}", other),
    }
}

#[test]
fn complete_and_delete_resolve_the_name_only() {
    let args = TodoArgs { command: Some(TodoCommands::Complete { name: None }) };
    match plan(args) {
        Plan::Resolve { action, data } => {
            assert_eq!(action, Action::Complete);
            assert_eq!(data, get_task_data(None, None, false));
            assert_eq!(data.question(), Some(Question::Name));
        },
        other => panic!("unexpected plan {:?}", other),
    }
    let args = TodoArgs { command: Some(TodoCommands::Delete { name: some("milk") }) };
    match plan(args) {
        Plan::Resolve { action, data } => {
            assert_eq!(action, Action::Delete);
            assert_eq!(data.question(), None);
            assert_eq!(data.into_resolved(), Some((text("milk"), None)));
        },
        other => panic!("unexpected plan {:?}", other),
    }
}

#[test]
fn action_words() {
    assert_eq!(Action::Add.word(), "add");
    assert_eq!(Action::Complete.word(), "complete");
    assert_eq!(Action::Delete.word(), "delete");
}

#[test]
fn carry_out_add() {
    let mut tasks = sample();
    assert_eq!(carry_out(&mut tasks, Action::Add, text("New"), some("d")), Outcome::Added(4));
    assert_eq!(tasks.len(), 4);
    assert_eq!(tasks[3], Task::new(4, text("New"), some("d"), false));
    assert_eq!(&tasks[..3], &sample()[..]);
}

#[test]
fn carry_out_complete_takes_the_first_match() {
    let mut tasks = sample();
    assert_eq!(carry_out(&mut tasks, Action::Complete, text("buy"), None), Outcome::Completed(1));
    assert!(tasks[0].completed());
    assert!(!tasks[1].completed());
    assert!(!tasks[2].completed());
    assert_eq!(carry_out(&mut tasks, Action::Complete, text("EGGS"), None), Outcome::Completed(3));
    assert!(tasks[2].completed());
}

#[test]
fn carry_out_delete_takes_the_first_match() {
    let mut tasks = sample();
    assert_eq!(carry_out(&mut tasks, Action::Delete, text("b"), None), Outcome::Deleted(1));
    assert_eq!(
        tasks,
        vec![
            Task::new(2, text("Call Bob"), some("re: meeting"), false),
            Task::new(3, text("Buy eggs"), None, false),
        ]
    );
    assert_eq!(carry_out(&mut tasks, Action::Delete, text("b"), None), Outcome::Deleted(2));
    assert_eq!(carry_out(&mut tasks, Action::Delete, text(""), None), Outcome::Deleted(3));
    assert!(tasks.is_empty());
}

#[test]
fn carry_out_without_match_changes_nothing() {
    let mut tasks = sample();
    assert_eq!(carry_out(&mut tasks, Action::Complete, text("zebra"), None), Outcome::NoMatch);
    assert_eq!(tasks, sample());
    assert_eq!(carry_out(&mut tasks, Action::Delete, text("zebra"), some("x")), Outcome::NoMatch);
    assert_eq!(tasks, sample());
    let mut none: Vec<Task> = Vec::new();
    assert_eq!(carry_out(&mut none, Action::Delete, text(""), None), Outcome::NoMatch);
    assert!(none.is_empty());
}

#[test]
fn carry_out_ignores_a_description_when_not_adding() {
    let mut tasks = sample();
    assert_eq!(
        carry_out(&mut tasks, Action::Complete, text("bob"), some("other")),
        Outcome::Completed(2)
    );
    assert_eq!(tasks[1], Task::new(2, text("Call Bob"), some("re: meeting"), true));
}
