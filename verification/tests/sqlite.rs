use bilibili_webhook::sqlite::{Content, RegisterStep, Source, StoreReply};

#[test]
fn new_source_is_inserted_then_read() {
    let s = Source::register_next(RegisterStep::Lookup, StoreReply::Present(false));
    assert_eq!(s, RegisterStep::Insert);
    let s = Source::register_next(s, StoreReply::Inserted);
    assert_eq!(s, RegisterStep::ReadId);
    assert_eq!(Source::register_next(s, StoreReply::Row(Some(7))), RegisterStep::Done(7));
}

#[test]
fn present_source_is_only_read() {
    let s = Source::register_next(RegisterStep::Lookup, StoreReply::Present(true));
    assert_eq!(s, RegisterStep::ReadId);
    assert_eq!(Source::register_next(s, StoreReply::Row(Some(3))), RegisterStep::Done(3));
}

#[test]
fn missing_row_gives_id_zero() {
    assert_eq!(Source::register_next(RegisterStep::ReadId, StoreReply::Row(None)), RegisterStep::Done(0));
}

#[test]
fn content_inserted_only_when_absent() {
    assert!(Content::insert_needed(false));
    assert!(!Content::insert_needed(true));
}

fn register(table: &mut Vec<(String, u32)>, link: &str) -> u32 {
    let mut step = RegisterStep::Lookup;
    loop {
        step = match step {
            RegisterStep::Lookup => Source::register_next(step, StoreReply::Present(table.iter().any(|r| r.0 == link))),
            RegisterStep::Insert => {
                let id = table.len() as u32 + 1;
                table.push((link.to_string(), id));
                Source::register_next(step, StoreReply::Inserted)
            }
            RegisterStep::ReadId => {
                let row = table.iter().find(|r| r.0 == link).map(|r| r.1);
                Source::register_next(step, StoreReply::Row(row))
            }
            RegisterStep::Done(id) => return id,
        };
    }
}

#[test]
fn registering_a_source_twice_adds_one_row() {
    let mut table = Vec::new();
    assert_eq!(register(&mut table, "66458634"), 1);
    assert_eq!(register(&mut table, "66458634"), 1);
    assert_eq!(register(&mut table, "7"), 2);
    assert_eq!(table.len(), 2);
}
