use sysprog::file_ops::{
    create_command_line, launch_failure_message, menu_choice, preamble_message, report_message,
    shell_command, FileOperation, MenuChoice,
};
use sysprog::workers::{consumer_step, ConsumerAction, ItemSource, TERMINATION_SIGNAL};

#[test]
fn items_are_in_range_and_never_the_signal() {
    let mut source = ItemSource::new();
    let mut seen_low = false;
    let mut seen_high = false;
    for _ in 0..5000 {
        let n = source.next_item();
        assert!((1..=100).contains(&n));
        assert_ne!(n, TERMINATION_SIGNAL);
        seen_low |= n <= 10;
        seen_high |= n >= 90;
    }
    assert!(seen_low && seen_high);
}

#[test]
fn consumer_stops_only_on_the_signal() {
    assert_eq!(consumer_step(TERMINATION_SIGNAL), ConsumerAction::Stop);
    assert_eq!(consumer_step(5), ConsumerAction::Consume(5));
    assert_eq!(consumer_step(-2), ConsumerAction::Consume(-2));
}

#[test]
fn menu_entries() {
    assert_eq!(menu_choice("1"), MenuChoice::List);
    assert_eq!(menu_choice("2"), MenuChoice::Display);
    assert_eq!(menu_choice("3"), MenuChoice::Create);
    assert_eq!(menu_choice("4"), MenuChoice::Remove);
    assert_eq!(menu_choice("5"), MenuChoice::Pwd);
    assert_eq!(menu_choice("0"), MenuChoice::Exit);
    assert_eq!(menu_choice("7"), MenuChoice::Invalid);
    assert_eq!(menu_choice("12"), MenuChoice::Invalid);
    assert_eq!(menu_choice(""), MenuChoice::Invalid);
}

#[test]
fn commands_for_operations() {
    assert_eq!(create_command_line("notes.txt", "hi there"), "echo 'hi there' > notes.txt");
    let c = shell_command(&FileOperation::List("/tmp".to_string()));
    assert_eq!((c.program.as_str(), c.args.clone(), c.report_outcome), ("ls", vec!["/tmp".to_string()], false));
    let c = shell_command(&FileOperation::Display("a.txt".to_string()));
    assert_eq!((c.program.as_str(), c.args.clone(), c.report_outcome), ("cat", vec!["a.txt".to_string()], false));
    let c = shell_command(&FileOperation::Create("p".to_string(), "x".to_string()));
    assert_eq!(c.program, "sh");
    assert_eq!(c.args, vec!["-c".to_string(), "echo 'x' > p".to_string()]);
    assert!(c.report_outcome);
    let c = shell_command(&FileOperation::Remove("old".to_string()));
    assert_eq!((c.program.as_str(), c.args.clone(), c.report_outcome), ("rm", vec!["old".to_string()], true));
    let c = shell_command(&FileOperation::Pwd);
    assert_eq!((c.program.as_str(), c.args.len(), c.report_outcome), ("pwd", 0, false));
}

#[test]
fn messages_for_operations() {
    let create = FileOperation::Create("a.txt".to_string(), "hi".to_string());
    let remove = FileOperation::Remove("b.txt".to_string());
    assert_eq!(report_message(&create, true), Some("File 'a.txt' created successfully.".to_string()));
    assert_eq!(report_message(&create, false), Some("Failed to create file.".to_string()));
    assert_eq!(report_message(&remove, true), Some("File 'b.txt' removed successfully.".to_string()));
    assert_eq!(report_message(&remove, false), Some("Failed to remove file.".to_string()));
    assert_eq!(report_message(&FileOperation::Pwd, true), None);
    assert_eq!(preamble_message(&FileOperation::Pwd), Some("Current working directory:".to_string()));
    assert_eq!(preamble_message(&remove), None);
    assert_eq!(launch_failure_message(&create), "Failed to execute command");
    assert_eq!(launch_failure_message(&remove), "Failed to execute rm");
    assert_eq!(launch_failure_message(&FileOperation::List(".".to_string())), "Failed to execute ls");
    assert_eq!(launch_failure_message(&FileOperation::Pwd), "Failed to execute pwd");
}
