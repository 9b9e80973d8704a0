use imag::diary::{Diary, DiaryId};

fn id(y: i32, m: u32, d: u32, h: u32, min: u32) -> DiaryId {
    DiaryId::new(String::from("work"), y, m, d, h, min)
}

fn stamp(r: &Result<DiaryId, String>) -> Result<(i32, u32, u32, u32, u32), String> {
    match r {
        Ok(i) => Ok((i.year, i.month, i.day, i.hour, i.minute)),
        Err(e) => Err(e.clone()),
    }
}

#[test]
fn diary_name_is_kept() {
    let d = Diary::open("work");
    assert_eq!(d.name(), "work");
}

#[test]
fn youngest_is_earliest_readable_entry() {
    let d = Diary::open("work");
    let entries: Vec<Result<DiaryId, String>> = vec![
        Err(String::from("broken")),
        Ok(id(2016, 5, 3, 10, 0)),
        Ok(id(2015, 12, 31, 23, 59)),
        Ok(id(2016, 1, 1, 0, 0)),
    ];
    let r = d.get_youngest_entry(Ok(entries)).unwrap();
    assert_eq!(stamp(&r), Ok((2015, 12, 31, 23, 59)));
}

#[test]
fn youngest_compares_time_of_day() {
    let d = Diary::open("work");
    let entries: Vec<Result<DiaryId, String>> = vec![Ok(id(2016, 5, 3, 10, 1)), Ok(id(2016, 5, 3, 10, 0))];
    let r = d.get_youngest_entry(Ok(entries)).unwrap();
    assert_eq!(stamp(&r), Ok((2016, 5, 3, 10, 0)));
}

#[test]
fn youngest_among_equals_is_first_listed() {
    let d = Diary::open("work");
    let entries: Vec<Result<DiaryId, String>> = vec![
        Ok(id(2016, 5, 3, 10, 0)),
        Ok(DiaryId::new(String::from("other"), 2016, 5, 3, 10, 0)),
    ];
    let r = d.get_youngest_entry(Ok(entries)).unwrap().unwrap();
    assert_eq!(r.name, "work");
}

#[test]
fn youngest_of_unreadable_entries_is_first_error() {
    let d = Diary::open("work");
    let entries: Vec<Result<DiaryId, String>> = vec![Err(String::from("one")), Err(String::from("two"))];
    let r = d.get_youngest_entry(Ok(entries)).unwrap();
    assert_eq!(stamp(&r), Err(String::from("one")));
}

#[test]
fn youngest_of_no_entries_is_none() {
    let d = Diary::open("work");
    let entries: Vec<Result<DiaryId, String>> = vec![];
    assert!(d.get_youngest_entry(Ok(entries)).is_none());
}

#[test]
fn youngest_passes_listing_failure_on() {
    let d = Diary::open("work");
    let r = d.get_youngest_entry(Err(String::from("store read error"))).unwrap();
    assert_eq!(stamp(&r), Err(String::from("store read error")));
}

#[test]
fn entry_ids_carry_the_diary_name() {
    let d = Diary::open("work");
    let r = d.new_entry_by_id(DiaryId::new(String::from("other"), 2016, 2, 29, 7, 30));
    assert_eq!(r.name, "work");
    assert_eq!((r.year, r.month, r.day, r.hour, r.minute), (2016, 2, 29, 7, 30));
    let today = d.new_entry_today();
    assert_eq!(today.name, "work");
    assert_eq!((today.hour, today.minute), (0, 0));
    assert!(1 <= today.month && today.month <= 12);
    assert!(1 <= today.day && today.day <= 31);
}

#[test]
fn entry_for_date_is_at_midnight() {
    let d = Diary::open("work");
    let r = d.entry_for_date(2016, 7, 14);
    assert_eq!(r.name, "work");
    assert_eq!((r.year, r.month, r.day, r.hour, r.minute), (2016, 7, 14, 0, 0));
}
