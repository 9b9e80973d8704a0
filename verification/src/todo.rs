//! Taskwarrior tasks kept in the store: import, store paths, header
//! writes, and what a hook run does with a stream of changed tasks.

use vstd::prelude::*;

use task_hookrs::status::TaskStatus as TwStatus;

verus! {

/// What can go wrong with a task.
#[derive(Debug, Clone, Copy, PartialEq, Eq, Structural)]
pub enum TodoErrorKind {
    ImportError,
    StoreError,
    StoreIdError,
}

/// The status of a taskwarrior task.
#[derive(Debug, Clone, Copy, PartialEq, Eq, Structural)]
pub enum TaskStatus {
    Pending,
    Deleted,
    Completed,
    Waiting,
    Recurring,
}

/// What the bookkeeping reads of an imported taskwarrior task: its UUID
/// (as the 128-bit number it stands for) and its status.
#[derive(Debug, Clone, Copy, PartialEq, Eq, Structural)]
pub struct ImportedTask {
    pub uuid: u128,
    pub status: TaskStatus,
}

/// The task that a line of taskwarrior JSON describes, if it describes one.
pub uninterp spec fn imported_task(line: Seq<char>) -> Option<ImportedTask>;

/// Trusted: task-hookrs' `import_task` parses one JSON-formatted task; its
/// result depends on the line alone. Of the task, the UUID and the status
/// are handed back, the status variant by variant.
#[verifier::external_body]
fn import_task_line(line: &str) -> (r: Option<ImportedTask>)
    ensures
        r == imported_task(line@),
{
    let t: task_hookrs::task::Task = task_hookrs::import::import_task(line).ok()?;
    let status = match t.status() {
        TwStatus::Pending => TaskStatus::Pending,
        TwStatus::Deleted => TaskStatus::Deleted,
        TwStatus::Completed => TaskStatus::Completed,
        TwStatus::Waiting => TaskStatus::Waiting,
        TwStatus::Recurring => TaskStatus::Recurring,
    };
    Some(ImportedTask { uuid: t.uuid().as_u128(), status })
}

/// The lower-case hexadecimal digit of `n`, for `n` below 16.
pub open spec fn hex_digit(n: int) -> char {
    if n < 10 {
        (48 + n) as char
    } else {
        (87 + n) as char
    }
}

/// The last `n` hexadecimal digits of `u`, most significant first.
pub open spec fn hex_digits(u: nat, n: nat) -> Seq<char>
    decreases n,
{
    if n == 0 {
        Seq::empty()
    } else {
        hex_digits(u / 16, (n - 1) as nat).push(hex_digit((u % 16) as int))
    }
}

/// The hyphenated text of a UUID: its 32 hexadecimal digits, lower case,
/// grouped 8-4-4-4-12.
pub open spec fn uuid_text(u: u128) -> Seq<char> {
    let d = hex_digits(u as nat, 32);
    d.subrange(0, 8) + seq!['-'] + d.subrange(8, 12) + seq!['-'] + d.subrange(12, 16) + seq!['-']
        + d.subrange(16, 20) + seq!['-'] + d.subrange(20, 32)
}

/// Trusted: the `Display` text of uuid's `Uuid::from_u128(u)`, which uuid
/// writes in the hyphenated lower-case form.
#[verifier::external_body]
fn uuid_string(u: u128) -> (s: String)
    ensures
        s@ == uuid_text(u),
{
    uuid::Uuid::from_u128(u).to_string()
}

/// The path, inside the todo module's part of the store, of the task with
/// this UUID.
pub open spec fn task_path(uuid: u128) -> Seq<char> {
    "taskwarrior/"@ + uuid_text(uuid)
}

/// The JSON text that serde_json writes for the task that a line of
/// taskwarrior JSON describes, if the line describes one and writing succeeds.
pub uninterp spec fn task_echo(line: Seq<char>) -> Option<Seq<char>>;

/// Trusted: serde_json's `to_string` of the task that task-hookrs'
/// `import_task` reads from the line; both depend on the line alone.
#[verifier::external_body]
fn echo_task(line: &str) -> (r: Option<String>)
    ensures
        r matches Some(e) ==> task_echo(line@) == Some(e@),
        r is None ==> task_echo(line@) is None,
{
    let t: task_hookrs::task::Task = task_hookrs::import::import_task(line).ok()?;
    serde_json::to_string(&t).ok()
}

/// The value of a lower-case hexadecimal digit, or -1 for any other
/// character.
pub open spec fn hex_char_value(c: char) -> int {
    let n = c as int;
    if 48 <= n <= 57 {
        n - 48
    } else if 97 <= n <= 102 {
        n - 87
    } else {
        -1
    }
}

/// The number that a sequence of hexadecimal digits writes, most
/// significant first.
pub open spec fn hex_number(s: Seq<char>) -> int
    decreases s.len(),
{
    if s.len() == 0 {
        0
    } else {
        hex_number(s.drop_last()) * 16 + hex_char_value(s.last())
    }
}

pub open spec fn pow16(n: nat) -> nat
    decreases n,
{
    if n == 0 {
        1
    } else {
        16 * pow16((n - 1) as nat)
    }
}

/// The 32 digits of a task's store path: what follows "taskwarrior/", with
/// the four hyphens taken out.
pub open spec fn path_digits(p: Seq<char>) -> Seq<char> {
    p.subrange(12, 20) + p.subrange(21, 25) + p.subrange(26, 30) + p.subrange(31, 35) + p.subrange(
        36,
        48,
    )
}

proof fn lemma_hex_digit_value(d: int)
    requires
        0 <= d < 16,
    ensures
        hex_char_value(hex_digit(d)) == d,
{
    let c = hex_digit(d);
    if d < 10 {
        assert((48 + d) as char as int == 48 + d);
    } else {
        assert((87 + d) as char as int == 87 + d);
    }
}

proof fn lemma_hex_digits(u: nat, n: nat)
    ensures
        hex_digits(u, n).len() == n,
        pow16(n) > 0,
        forall|i: int| 0 <= i < n ==> hex_char_value(#[trigger] hex_digits(u, n)[i]) >= 0,
        hex_number(hex_digits(u, n)) == u % pow16(n),
    decreases n,
{
    if n > 0 {
        let m = (n - 1) as nat;
        lemma_hex_digits(u / 16, m);
        let s = hex_digits(u, n);
        lemma_hex_digit_value((u % 16) as int);
        assert(s.drop_last() =~= hex_digits(u / 16, m));
        assert(forall|i: int| 0 <= i < m ==> s[i] == #[trigger] hex_digits(u / 16, m)[i]);
        vstd::arithmetic::div_mod::lemma_mod_breakdown(u as int, 16, pow16(m) as int);
        assert(hex_number(s) == hex_number(hex_digits(u / 16, m)) * 16 + (u % 16));
        assert((u / 16) as int == (u as int) / 16);
        assert(u % pow16(n) == 16 * ((u as int / 16) % pow16(m) as int) + u as int % 16);
    }
}

/// Law: the store path of a task is "taskwarrior/" followed by its UUID
/// in groups of 8-4-4-4-12 lower-case hexadecimal digits, and those digits
/// write that very UUID.
pub proof fn lemma_task_path_names_uuid(uuid: u128)
    ensures
        task_path(uuid).len() == 48,
        task_path(uuid).subrange(0, 12) == "taskwarrior/"@,
        task_path(uuid)[20] == '-' && task_path(uuid)[25] == '-' && task_path(uuid)[30] == '-'
            && task_path(uuid)[35] == '-',
        forall|i: int| 0 <= i < 32 ==> hex_char_value(#[trigger] path_digits(task_path(uuid))[i]) >= 0,
        hex_number(path_digits(task_path(uuid))) == uuid,
{
    reveal_strlit("taskwarrior/");
    let d = hex_digits(uuid as nat, 32);
    lemma_hex_digits(uuid as nat, 32);
    let p = task_path(uuid);
    assert(path_digits(p) =~= d);
    reveal_with_fuel(pow16, 33);
    assert(pow16(32) == 0x1_0000_0000_0000_0000_0000_0000_0000_0000);
    assert(p.subrange(0, 12) =~= "taskwarrior/"@);
}

/// Law: different tasks have different store paths.
pub proof fn lemma_task_paths_differ(a: u128, b: u128)
    requires
        a != b,
    ensures
        task_path(a) != task_path(b),
{
    lemma_task_path_names_uuid(a);
    lemma_task_path_names_uuid(b);
}

/// What a taskwarrior hook run does with the task at one position.
#[derive(Debug, PartialEq, Eq)]
pub enum HookStep {
    /// The state of a task before its change: nothing to do.
    Skip,
    /// A changed task: hand this JSON text of it back to taskwarrior.
    Emit(String),
    /// A changed task whose status is `Deleted`: hand this JSON text of it
    /// back, then delete the task with this UUID from the store.
    EmitAndDelete(String, u128),
}

/// The text of an input line, if it could be read.
pub open spec fn line_text(line: Option<String>) -> Option<Seq<char>> {
    match line {
        Some(l) => Some(l@),
        None => None,
    }
}

/// The run stops with an import error at position `i`: the line could not
/// be read or describes no task, or, at an odd position, the task cannot be
/// written back as JSON.
pub open spec fn hook_fails(i: int, line: Option<Seq<char>>) -> bool {
    match line {
        None => true,
        Some(l) => imported_task(l) is None || (i % 2 == 1 && task_echo(l) is None),
    }
}

/// `step` is what the run does at position `i` with `line`: lines come in
/// pairs, the task before a change and the task after it; only the second
/// of each pair is handed back, and deleted when its status is `Deleted`.
pub open spec fn hook_step_ok(i: int, line: Option<Seq<char>>, step: HookStep) -> bool {
    match line {
        None => false,
        Some(l) => match imported_task(l) {
            None => false,
            Some(t) => if i % 2 == 1 {
                match (task_echo(l), step) {
                    (Some(e), HookStep::Emit(x)) => t.status != TaskStatus::Deleted && x@ == e,
                    (Some(e), HookStep::EmitAndDelete(x, u)) => t.status == TaskStatus::Deleted && x@
                        == e && u == t.uuid,
                    _ => false,
                }
            } else {
                step is Skip
            },
        },
    }
}

/// A write to the header of a task's store entry.
#[derive(Debug, PartialEq, Eq)]
pub enum HeaderWrite {
    /// Set the header field at this path to an empty table.
    EmptyTable(String),
    /// Set the header field at this path to this text.
    Text(String, String),
}

/// What a header write does, as paths and values of text.
pub enum HeaderWriteView {
    EmptyTable(Seq<char>),
    Text(Seq<char>, Seq<char>),
}

impl HeaderWrite {
    pub open spec fn view_of(self) -> HeaderWriteView {
        match self {
            HeaderWrite::EmptyTable(p) => HeaderWriteView::EmptyTable(p@),
            HeaderWrite::Text(p, v) => HeaderWriteView::Text(p@, v@),
        }
    }
}

/// The header writes that make a store entry a task: a `todo` table where
/// there is none yet, then the task's UUID at `todo.uuid`.
pub open spec fn task_header_writes(todo_present: bool, uuid: u128) -> Seq<HeaderWriteView> {
    let set_uuid = HeaderWriteView::Text("todo.uuid"@, uuid_text(uuid));
    if todo_present {
        seq![set_uuid]
    } else {
        seq![HeaderWriteView::EmptyTable("todo"@), set_uuid]
    }
}

/// The task that an input line describes, if it could be read and
/// describes one.
pub open spec fn line_task(line: Option<Seq<char>>) -> Option<ImportedTask> {
    match line {
        Some(l) => imported_task(l),
        None => None,
    }
}

/// Law: in a hook run, the task before a change (even position) is left
/// alone; the task after it (odd position) is always handed back, and is
/// deleted, under its own UUID, exactly when its status is `Deleted`.
pub proof fn lemma_hook_step_meaning(i: int, line: Option<Seq<char>>, step: HookStep)
    requires
        0 <= i,
        hook_step_ok(i, line, step),
    ensures
        line_task(line) is Some,
        i % 2 == 0 ==> step is Skip,
        i % 2 == 1 ==> !(step is Skip),
        i % 2 == 1 ==> (step is EmitAndDelete <==> line_task(line)->Some_0.status == TaskStatus::Deleted),
        step matches HookStep::EmitAndDelete(_, u) ==> u == line_task(line)->Some_0.uuid,
{
}

/// What each step of a hook run means: every stepped line describes a
/// task; even positions are skipped; odd positions are handed back, and
/// deleted, under the task's own UUID, exactly when its status is `Deleted`.
pub open spec fn steps_mean(lines: Seq<Option<String>>, steps: Seq<HookStep>) -> bool {
    &&& forall|i: int| 0 <= i < steps.len() ==> #[trigger] line_task(line_text(lines[i])) is Some
    &&& forall|i: int| 0 <= i < steps.len() && i % 2 == 0 ==> #[trigger] steps[i] is Skip
    &&& forall|i: int| 0 <= i < steps.len() && i % 2 == 1 ==> !(#[trigger] steps[i] is Skip)
    &&& forall|i: int|
        0 <= i < steps.len() && i % 2 == 1 ==> (#[trigger] steps[i] is EmitAndDelete <==> line_task(
            line_text(lines[i]),
        )->Some_0.status == TaskStatus::Deleted)
    &&& forall|i: int|
        0 <= i < steps.len() ==> (#[trigger] steps[i] matches HookStep::EmitAndDelete(_, u) ==> u
            == line_task(line_text(lines[i]))->Some_0.uuid)
}

proof fn lemma_steps_mean(lines: Seq<Option<String>>, steps: Seq<HookStep>)
    requires
        steps.len() <= lines.len(),
        forall|i: int| 0 <= i < steps.len() ==> hook_step_ok(i, line_text(lines[i]), #[trigger] steps[i]),
    ensures
        steps_mean(lines, steps),
{
    assert forall|i: int| 0 <= i < steps.len() implies #[trigger] line_task(line_text(lines[i])) is Some by {
        lemma_hook_step_meaning(i, line_text(lines[i]), steps[i]);
    }
    assert forall|i: int| 0 <= i < steps.len() implies (i % 2 == 0 ==> #[trigger] steps[i] is Skip)
        && (i % 2 == 1 ==> !(steps[i] is Skip)) && (i % 2 == 1 ==> (steps[i] is EmitAndDelete
        <==> line_task(line_text(lines[i]))->Some_0.status == TaskStatus::Deleted)) && (
    steps[i] matches HookStep::EmitAndDelete(_, u) ==> u == line_task(line_text(lines[i]))->Some_0.uuid) by {
        lemma_hook_step_meaning(i, line_text(lines[i]), steps[i]);
    }
}

/// Task lookups and imports from taskwarrior.
pub struct Task;

impl Task {
    /// The store path of the task with this UUID: "taskwarrior/" followed
    /// by the hyphenated UUID.
    pub fn entry_path(uuid: u128) -> (p: String)
        ensures
            p@ == task_path(uuid),
            p@.len() == 48,
            hex_number(path_digits(p@)) == uuid,
    {
        proof {
            lemma_task_path_names_uuid(uuid);
        }
        let mut p = String::from_str("taskwarrior/");
        let u = uuid_string(uuid);
        p.append(u.as_str());
        p
    }

    /// The task that a line of taskwarrior JSON describes; a line that
    /// describes no task is an import error.
    pub fn import_task(line: &str) -> (r: Result<ImportedTask, TodoErrorKind>)
        ensures
            imported_task(line@) is None ==> r == Err::<ImportedTask, TodoErrorKind>(TodoErrorKind::ImportError),
            imported_task(line@) matches Some(t) ==> r == Ok::<ImportedTask, TodoErrorKind>(t),
    {
        match import_task_line(line) {
            Some(t) => Ok(t),
            None => Err(TodoErrorKind::ImportError),
        }
    }

    /// The store path of the task that a line of taskwarrior JSON
    /// describes; a line that describes no task is an import error.
    pub fn locate_import(s: &str) -> (r: Result<String, TodoErrorKind>)
        ensures
            imported_task(s@) is None ==> r == Err::<String, TodoErrorKind>(TodoErrorKind::ImportError),
            imported_task(s@) matches Some(t) ==> (r matches Ok(p) && p@ == task_path(t.uuid)),
    {
        let t = Task::import_task(s)?;
        Ok(Task::entry_path(t.uuid))
    }

    /// The header writes that turn the store entry of the task with this
    /// UUID into a task, given whether its header already has a `todo`
    /// field.
    pub fn header_writes(todo_present: bool, uuid: u128) -> (w: Vec<HeaderWrite>)
        ensures
            w@.map_values(|x: HeaderWrite| x.view_of()) == task_header_writes(todo_present, uuid),
    {
        let mut w: Vec<HeaderWrite> = Vec::new();
        if !todo_present {
            w.push(HeaderWrite::EmptyTable(String::from_str("todo")));
        }
        w.push(HeaderWrite::Text(String::from_str("todo.uuid"), uuid_string(uuid)));
        w
    }

    /// The steps of a taskwarrior hook run over its non-empty input lines
    /// (`None` for a line that could not be read), and the position at which
    /// the run stops with an import error, if it does.
    #[verifier::loop_isolation(false)]
    pub fn hook_steps(lines: &Vec<Option<String>>) -> (r: (Vec<HookStep>, Option<usize>))
        ensures
            r.1 matches Some(k) ==> k < lines.len() && hook_fails(k as int, line_text(lines@[k as int])),
            r.1 is None ==> r.0.len() == lines.len(),
            r.1 matches Some(k) ==> r.0.len() == k,
            forall|i: int|
                0 <= i < r.0.len() ==> hook_step_ok(i, line_text(lines@[i]), #[trigger] r.0@[i]),
            steps_mean(lines@, r.0@),
    {
        let mut steps: Vec<HookStep> = Vec::new();
        let mut i: usize = 0;
        while i < lines.len()
            invariant
                i <= lines.len(),
                steps.len() == i,
                forall|k: int|
                    0 <= k < i ==> hook_step_ok(k, line_text(lines@[k]), #[trigger] steps@[k]),
            decreases lines.len() - i,
        {
            let line = match &lines[i] {
                Some(l) => l,
                None => {
                    proof {
                        lemma_steps_mean(lines@, steps@);
                    }
                    return (steps, Some(i));
                },
            };
            let t = match Task::import_task(line.as_str()) {
                Ok(t) => t,
                Err(_) => {
                    proof {
                        lemma_steps_mean(lines@, steps@);
                    }
                    return (steps, Some(i));
                },
            };
            if i % 2 == 1 {
                let echo = match echo_task(line.as_str()) {
                    Some(e) => e,
                    None => {
                        proof {
                        lemma_steps_mean(lines@, steps@);
                    }
                    return (steps, Some(i));
                    },
                };
                if t.status == TaskStatus::Deleted {
                    steps.push(HookStep::EmitAndDelete(echo, t.uuid));
                } else {
                    steps.push(HookStep::Emit(echo));
                }
            } else {
                steps.push(HookStep::Skip);
            }
            i += 1;
        }
        proof {
            lemma_steps_mean(lines@, steps@);
        }
        (steps, None)
    }
}

} // verus!
