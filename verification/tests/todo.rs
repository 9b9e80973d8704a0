use imag::todo::{HeaderWrite, HookStep, Task, TaskStatus, TodoErrorKind};

#[test]
fn entry_path_uses_hyphenated_uuid() {
    let p = Task::entry_path(0xa1a2a3a4b1b2c1c2d1d2d3d4d5d6d7d8u128);
    assert_eq!(p, "taskwarrior/a1a2a3a4-b1b2-c1c2-d1d2-d3d4d5d6d7d8");
    assert_eq!(Task::entry_path(0), "taskwarrior/00000000-0000-0000-0000-000000000000");
}

#[test]
fn locate_import_reads_the_uuid() {
    let line = "{\"description\":\"x\",\"entry\":\"20150619T165438Z\",\"status\":\"pending\",\"uuid\":\"8ca953d5-18b4-4eb9-bd56-18f2e5b752f0\"}";
    assert_eq!(Task::locate_import(line).unwrap(), "taskwarrior/8ca953d5-18b4-4eb9-bd56-18f2e5b752f0");
}

#[test]
fn locate_import_rejects_garbage() {
    assert_eq!(Task::locate_import("not json"), Err(TodoErrorKind::ImportError));
}

fn line(uuid: &str, status: &str) -> String {
    format!(
        "{{\"description\":\"x\",\"entry\":\"20150619T165438Z\",\"status\":\"{}\",\"uuid\":\"{}\"}}",
        status, uuid
    )
}

fn echo(line: &str) -> String {
    let t: task_hookrs::task::Task = task_hookrs::import::import_task(line).unwrap();
    serde_json::to_string(&t).unwrap()
}

const U1: &str = "8ca953d5-18b4-4eb9-bd56-18f2e5b752f0";
const U2: &str = "00000000-0000-0000-0000-000000000002";

#[test]
fn hook_acts_on_every_second_task() {
    let l0 = line(U1, "pending");
    let l1 = line(U1, "deleted");
    let l2 = line(U2, "deleted");
    let l3 = line(U2, "completed");
    let lines = vec![Some(l0), Some(l1.clone()), Some(l2), Some(l3.clone())];
    let (steps, stop) = Task::hook_steps(&lines);
    assert_eq!(stop, None);
    assert_eq!(
        steps,
        vec![
            HookStep::Skip,
            HookStep::EmitAndDelete(echo(&l1), 0x8ca953d518b44eb9bd5618f2e5b752f0u128),
            HookStep::Skip,
            HookStep::Emit(echo(&l3)),
        ]
    );
}

#[test]
fn hook_stops_at_import_failure() {
    let l0 = line(U1, "pending");
    let l1 = line(U1, "deleted");
    let lines = vec![Some(l0), Some(l1.clone()), Some(String::from("bad")), Some(line(U2, "deleted"))];
    let (steps, stop) = Task::hook_steps(&lines);
    assert_eq!(stop, Some(2));
    assert_eq!(steps, vec![HookStep::Skip, HookStep::EmitAndDelete(echo(&l1), 0x8ca953d518b44eb9bd5618f2e5b752f0u128)]);
}

#[test]
fn hook_stops_at_unreadable_line() {
    let lines = vec![Some(line(U1, "pending")), None];
    let (steps, stop) = Task::hook_steps(&lines);
    assert_eq!(stop, Some(1));
    assert_eq!(steps, vec![HookStep::Skip]);
}

#[test]
fn import_task_reads_uuid_and_status() {
    let line = "{\"description\":\"x\",\"entry\":\"20150619T165438Z\",\"status\":\"deleted\",\"uuid\":\"8ca953d5-18b4-4eb9-bd56-18f2e5b752f0\"}";
    let t = Task::import_task(line).unwrap();
    assert_eq!(t.uuid, 0x8ca953d518b44eb9bd5618f2e5b752f0u128);
    assert_eq!(t.status, TaskStatus::Deleted);
    assert_eq!(Task::import_task("{}"), Err(TodoErrorKind::ImportError));
}

#[test]
fn header_writes_add_missing_todo_table() {
    let uuid = 0xa1a2a3a4b1b2c1c2d1d2d3d4d5d6d7d8u128;
    let text = String::from("a1a2a3a4-b1b2-c1c2-d1d2-d3d4d5d6d7d8");
    assert_eq!(
        Task::header_writes(false, uuid),
        vec![HeaderWrite::EmptyTable(String::from("todo")), HeaderWrite::Text(String::from("todo.uuid"), text.clone())]
    );
    assert_eq!(Task::header_writes(true, uuid), vec![HeaderWrite::Text(String::from("todo.uuid"), text)]);
}
