use task_manager::store::{
    complete_task, delete_task, get_task_ids, get_tasks, highest_id, print_tasks, save_task,
    task_line, StoreError, Stored,
};
use task_manager::task::Task;

fn text(s: &str) -> String {
    s.to_string()
}

fn three() -> Vec<Task> {
    let mut tasks = Vec::new();
    save_task(&mut tasks, text("Buy milk"), None);
    save_task(&mut tasks, text("Call Bob"), Some(text("re: meeting")));
    save_task(&mut tasks, text("Groceries"), None);
    tasks
}

#[test]
fn add_to_empty_gives_one() {
    let mut tasks = Vec::new();
    assert_eq!(save_task(&mut tasks, text("first"), None), 1);
    assert_eq!(tasks, vec![Task::new(1, text("first"), None, false)]);
}

#[test]
fn adds_number_from_one_in_order() {
    let mut tasks = Vec::new();
    for n in 1..=20u32 {
        let id = save_task(&mut tasks, format!("task {}", n), None);
        assert_eq!(id, n);
    }
    let ids: Vec<u32> = tasks.iter().map(|t| t.id()).collect();
    assert_eq!(ids, (1..=20u32).collect::<Vec<u32>>());
    assert_eq!(tasks[6].name(), "task 7");
}

#[test]
fn added_task_is_last_and_open() {
    let mut tasks = three();
    let id = save_task(&mut tasks, text("Water plants"), Some(text("balcony")));
    assert_eq!(id, 4);
    let last = tasks.last().unwrap();
    assert_eq!(last.id(), 4);
    assert_eq!(last.name(), "Water plants");
    assert_eq!(last.description(), Some("balcony"));
    assert!(!last.completed());
    assert_eq!(tasks.len(), 4);
    assert_eq!(&tasks[..3], &three()[..]);
}

#[test]
fn add_goes_one_above_the_largest_id() {
    let mut tasks = vec![
        Task::new(7, text("a"), None, false),
        Task::new(40, text("b"), None, true),
        Task::new(12, text("c"), None, false),
    ];
    assert_eq!(highest_id(&tasks), 40);
    assert_eq!(save_task(&mut tasks, text("d"), None), 41);
    assert_eq!(tasks[3], Task::new(41, text("d"), None, false));
}

#[test]
fn highest_id_of_empty_is_zero() {
    assert_eq!(highest_id(&Vec::new()), 0);
}

#[test]
fn add_reaches_the_last_id() {
    let mut tasks = vec![Task::new(u32::MAX - 1, text("late"), None, false)];
    assert_eq!(save_task(&mut tasks, text("last"), None), u32::MAX);
    assert_eq!(highest_id(&tasks), u32::MAX);
}

#[test]
fn deleted_id_is_not_reused() {
    let mut tasks = Vec::new();
    assert_eq!(save_task(&mut tasks, text("Buy milk"), None), 1);
    assert_eq!(save_task(&mut tasks, text("Call Bob"), Some(text("re: meeting"))), 2);
    assert_eq!(delete_task(&mut tasks, 1), Ok(()));
    assert_eq!(save_task(&mut tasks, text("Buy eggs"), None), 3);
    assert_eq!(
        tasks,
        vec![
            Task::new(2, text("Call Bob"), Some(text("re: meeting")), false),
            Task::new(3, text("Buy eggs"), None, false),
        ]
    );
}

#[test]
fn deleting_the_highest_id_frees_it() {
    let mut tasks = three();
    assert_eq!(delete_task(&mut tasks, 3), Ok(()));
    assert_eq!(save_task(&mut tasks, text("again"), None), 3);
}

#[test]
fn complete_marks_that_task_only() {
    let mut tasks = three();
    assert_eq!(complete_task(&mut tasks, 2), Ok(()));
    assert_eq!(
        tasks,
        vec![
            Task::new(1, text("Buy milk"), None, false),
            Task::new(2, text("Call Bob"), Some(text("re: meeting")), true),
            Task::new(3, text("Groceries"), None, false),
        ]
    );
}

#[test]
fn complete_twice_changes_nothing_more() {
    let mut tasks = three();
    assert_eq!(complete_task(&mut tasks, 1), Ok(()));
    let once = tasks.clone();
    assert_eq!(complete_task(&mut tasks, 1), Ok(()));
    assert_eq!(tasks, once);
    assert!(tasks[0].completed());
}

#[test]
fn complete_unknown_id_is_not_found() {
    let mut tasks = three();
    assert_eq!(complete_task(&mut tasks, 9), Err(StoreError::NotFound));
    assert_eq!(tasks, three());
    let mut none: Vec<Task> = Vec::new();
    assert_eq!(complete_task(&mut none, 1), Err(StoreError::NotFound));
}

#[test]
fn complete_takes_the_first_of_equal_ids() {
    let mut tasks = vec![
        Task::new(5, text("a"), None, false),
        Task::new(5, text("b"), None, false),
    ];
    assert_eq!(complete_task(&mut tasks, 5), Ok(()));
    assert!(tasks[0].completed());
    assert!(!tasks[1].completed());
}

#[test]
fn delete_removes_that_task_only() {
    let mut tasks = three();
    assert_eq!(delete_task(&mut tasks, 2), Ok(()));
    assert_eq!(
        tasks,
        vec![
            Task::new(1, text("Buy milk"), None, false),
            Task::new(3, text("Groceries"), None, false),
        ]
    );
}

#[test]
fn delete_twice_is_not_found() {
    let mut tasks = three();
    assert_eq!(delete_task(&mut tasks, 1), Ok(()));
    let once = tasks.clone();
    assert_eq!(delete_task(&mut tasks, 1), Err(StoreError::NotFound));
    assert_eq!(tasks, once);
}

#[test]
fn delete_unknown_id_is_not_found() {
    let mut tasks = three();
    assert_eq!(delete_task(&mut tasks, 0), Err(StoreError::NotFound));
    assert_eq!(tasks, three());
    let mut none: Vec<Task> = Vec::new();
    assert_eq!(delete_task(&mut none, 1), Err(StoreError::NotFound));
}

#[test]
fn delete_first_and_last() {
    let mut tasks = three();
    assert_eq!(delete_task(&mut tasks, 1), Ok(()));
    assert_eq!(delete_task(&mut tasks, 3), Ok(()));
    assert_eq!(tasks, vec![Task::new(2, text("Call Bob"), Some(text("re: meeting")), false)]);
    assert_eq!(delete_task(&mut tasks, 2), Ok(()));
    assert!(tasks.is_empty());
}

#[test]
fn delete_takes_every_task_of_equal_ids() {
    let mut tasks = vec![
        Task::new(5, text("a"), None, false),
        Task::new(6, text("b"), None, false),
        Task::new(5, text("c"), None, false),
        Task::new(5, text("d"), None, false),
    ];
    assert_eq!(delete_task(&mut tasks, 5), Ok(()));
    assert_eq!(tasks, vec![Task::new(6, text("b"), None, false)]);
}

#[test]
fn empty_name_finds_every_task() {
    assert_eq!(get_task_ids(&three(), ""), vec![1, 2, 3]);
    assert_eq!(get_task_ids(&Vec::new(), ""), Vec::<u32>::new());
}

#[test]
fn search_ignores_case() {
    let mut tasks = Vec::new();
    let id = save_task(&mut tasks, text("Groceries"), None);
    assert_eq!(get_task_ids(&tasks, "grocer"), vec![id]);
    assert_eq!(get_task_ids(&tasks, "GROCER"), vec![id]);
    assert_eq!(get_task_ids(&tasks, "gRoCeRiEs"), vec![id]);
}

#[test]
fn search_lowers_the_stored_name_too() {
    let tasks = vec![Task::new(1, text("CALL BOB"), None, false)];
    assert_eq!(get_task_ids(&tasks, "call"), vec![1]);
    assert_eq!(get_task_ids(&tasks, "Bob"), vec![1]);
}

#[test]
fn search_keeps_collection_order() {
    let tasks = vec![
        Task::new(9, text("buy milk"), None, false),
        Task::new(2, text("sell car"), None, false),
        Task::new(5, text("Buy eggs"), None, true),
        Task::new(1, text("rebuy"), None, false),
    ];
    assert_eq!(get_task_ids(&tasks, "buy"), vec![9, 5, 1]);
}

#[test]
fn search_without_match_is_empty() {
    assert_eq!(get_task_ids(&three(), "zebra"), Vec::<u32>::new());
    assert_eq!(get_task_ids(&three(), "milk buy"), Vec::<u32>::new());
    assert_eq!(get_task_ids(&three(), "Buy milk and more"), Vec::<u32>::new());
}

#[test]
fn search_looks_at_names_not_descriptions() {
    assert_eq!(get_task_ids(&three(), "meeting"), Vec::<u32>::new());
}

#[test]
fn search_wants_one_unbroken_piece() {
    let tasks = vec![Task::new(1, text("abc"), None, false)];
    assert_eq!(get_task_ids(&tasks, "ac"), Vec::<u32>::new());
    assert_eq!(get_task_ids(&tasks, "bc"), vec![1]);
    assert_eq!(get_task_ids(&tasks, "abc"), vec![1]);
    assert_eq!(get_task_ids(&tasks, "abcd"), Vec::<u32>::new());
}

#[test]
fn search_beyond_ascii() {
    let tasks = vec![Task::new(1, text("ÄPFEL kaufen"), None, false)];
    assert_eq!(get_task_ids(&tasks, "äpfel"), vec![1]);
    assert_eq!(get_task_ids(&tasks, "Äpfel K"), vec![1]);
}

#[test]
fn nothing_stored_is_an_empty_collection() {
    assert_eq!(get_tasks(Stored::Missing), Ok(Vec::new()));
}

#[test]
fn unreadable_store_is_an_io_error() {
    assert_eq!(
        get_tasks(Stored::Unreadable(text("permission denied"))),
        Err(StoreError::Io(text("permission denied")))
    );
}

#[test]
fn malformed_store_is_a_parse_error() {
    assert_eq!(
        get_tasks(Stored::Malformed(text("expected value at line 1 column 1"))),
        Err(StoreError::Parse(text("expected value at line 1 column 1")))
    );
}

#[test]
fn stored_tasks_come_back_as_they_are() {
    assert_eq!(get_tasks(Stored::Tasks(three())), Ok(three()));
    assert_eq!(get_tasks(Stored::Tasks(Vec::new())), Ok(Vec::new()));
}

#[test]
fn error_messages() {
    assert_eq!(StoreError::NotFound.message(), "Task not found.");
    assert_eq!(StoreError::Io(text("disk full")).message(), "disk full");
    assert_eq!(StoreError::Parse(text("bad json")).message(), "bad json");
}

#[test]
fn listing_of_nothing() {
    assert_eq!(print_tasks(&Vec::new()), vec![text("No tasks found.")]);
}

#[test]
fn listing_shows_each_task_in_order() {
    let mut tasks = three();
    assert_eq!(complete_task(&mut tasks, 2), Ok(()));
    assert_eq!(
        print_tasks(&tasks),
        vec![text("[ ] Buy milk"), text("[x] Call Bob - re: meeting"), text("[ ] Groceries")]
    );
}

#[test]
fn line_of_a_task() {
    assert_eq!(task_line(&Task::new(1, text("a"), None, false)), "[ ] a");
    assert_eq!(task_line(&Task::new(1, text("a"), None, true)), "[x] a");
    assert_eq!(task_line(&Task::new(1, text("a"), Some(text("b")), false)), "[ ] a - b");
    assert_eq!(task_line(&Task::new(1, text("a"), Some(text("")), true)), "[x] a - ");
    assert_eq!(task_line(&Task::new(1, text(""), None, false)), "[ ] ");
}

#[test]
fn task_fields() {
    let mut task = Task::new(3, text("n"), Some(text("d")), false);
    assert_eq!(task.id(), 3);
    assert_eq!(task.name(), "n");
    assert_eq!(task.description(), Some("d"));
    assert!(!task.completed());
    task.complete();
    assert!(task.completed());
    assert_eq!(task, Task::new(3, text("n"), Some(text("d")), true));
    task.complete();
    assert_eq!(task, Task::new(3, text("n"), Some(text("d")), true));
    assert_eq!(Task::new(1, text("n"), None, false).description(), None);
}
