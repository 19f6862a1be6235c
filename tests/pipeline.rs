use kiro_executor::index::EntryIndexProvider;
use kiro_executor::logs::{normalize_chunks, normalize_text, NormalizedEntryType, PlainTextLogProcessor};

fn strings(v: &[&str]) -> Vec<String> {
    v.iter().map(|s| s.to_string()).collect()
}

#[test]
fn chunks_split_by_long_silence() {
    let mut idx = EntryIndexProvider::new();
    let chunks = strings(&["Analyzing code", "...", " done"]);
    let times = vec![0u64, 100, 3100];
    let r = normalize_chunks(NormalizedEntryType::AssistantMessage, 2000, &chunks, &times, &mut idx);
    assert_eq!(r.len(), 2);
    assert_eq!(r[0].entry.content, "Analyzing code...");
    assert_eq!(r[1].entry.content, " done");
    assert_eq!(r[0].index, 0);
    assert_eq!(r[1].index, 1);
    assert_eq!(idx.current(), 2);
}

#[test]
fn two_chunks_with_silence_give_two_entries() {
    let mut idx = EntryIndexProvider::new();
    let chunks = strings(&["first", "second"]);
    let times = vec![1000u64, 3500];
    let r = normalize_chunks(NormalizedEntryType::SystemMessage, 2000, &chunks, &times, &mut idx);
    assert_eq!(r.len(), 2);
    assert_eq!(r[0].entry.content, "first");
    assert_eq!(r[1].entry.content, "second");
    assert_eq!(r[0].entry.entry_type, NormalizedEntryType::SystemMessage);
}

#[test]
fn chunks_within_window_join_in_arrival_order() {
    let mut idx = EntryIndexProvider::new();
    let chunks = strings(&["b", "a", "c", "", "d"]);
    let times = vec![0u64, 500, 1000, 1500, 2000];
    let r = normalize_chunks(NormalizedEntryType::AssistantMessage, 2000, &chunks, &times, &mut idx);
    assert_eq!(r.len(), 1);
    assert_eq!(r[0].entry.content, "bacd");
    assert!(r[0].entry.timestamp.is_none());
    assert!(r[0].entry.metadata.is_none());
}

#[test]
fn empty_chunks_give_no_entries() {
    let mut idx = EntryIndexProvider::new();
    let chunks = strings(&["", ""]);
    let times = vec![0u64, 5000];
    let r = normalize_chunks(NormalizedEntryType::AssistantMessage, 2000, &chunks, &times, &mut idx);
    assert!(r.is_empty());
    assert_eq!(idx.current(), 0);
}

#[test]
fn gap_equal_to_window_does_not_flush() {
    let mut idx = EntryIndexProvider::new();
    let mut p = PlainTextLogProcessor::new(NormalizedEntryType::AssistantMessage, 2000);
    assert!(p.process("a", 0, &mut idx).is_empty());
    assert!(p.process("b", 2000, &mut idx).is_empty());
    let out = p.process("c", 4001, &mut idx);
    assert_eq!(out.len(), 1);
    assert_eq!(out[0].entry.content, "ab");
    let last = p.finish(&mut idx).unwrap();
    assert_eq!(last.entry.content, "c");
    assert_eq!(last.index, 1);
    assert!(p.finish(&mut idx).is_none());
}

#[test]
fn idle_buffer_flushes_without_new_chunk() {
    let mut idx = EntryIndexProvider::new();
    let mut p = PlainTextLogProcessor::new(NormalizedEntryType::AssistantMessage, 2000);
    assert!(p.process("waiting", 100, &mut idx).is_empty());
    assert!(p.flush_if_idle(2100, &mut idx).is_none());
    let e = p.flush_if_idle(2101, &mut idx).unwrap();
    assert_eq!(e.entry.content, "waiting");
    assert_eq!(e.index, 0);
    assert!(p.flush_if_idle(9000, &mut idx).is_none());
    assert!(p.finish(&mut idx).is_none());
}

#[test]
fn ansi_escapes_are_stripped() {
    let e = normalize_text(NormalizedEntryType::AssistantMessage, "\u{1b}[31mred\u{1b}[0m text");
    assert_eq!(e.content, "red text");
    let mut idx = EntryIndexProvider::new();
    let chunks = strings(&["\u{1b}[1mbold\u{1b}[0m"]);
    let r = normalize_chunks(NormalizedEntryType::AssistantMessage, 2000, &chunks, &vec![0u64], &mut idx);
    assert_eq!(r[0].entry.content, "bold");
}

#[test]
fn resumed_log_continues_after_largest_index() {
    let mut idx = EntryIndexProvider::start_from(&vec![3u64, 7, 5]);
    assert_eq!(idx.next(), 8);
    assert_eq!(idx.next(), 9);
    let empty = EntryIndexProvider::start_from(&Vec::new());
    assert_eq!(empty.current(), 0);
}

#[test]
fn shared_provider_orders_two_channels() {
    let mut idx = EntryIndexProvider::start_from(&vec![41u64]);
    let mut out = PlainTextLogProcessor::new(NormalizedEntryType::AssistantMessage, 2000);
    let mut err = PlainTextLogProcessor::new(NormalizedEntryType::SystemMessage, 2000);
    out.process("o1", 0, &mut idx);
    err.process("e1", 10, &mut idx);
    let o = out.finish(&mut idx).unwrap();
    let e = err.finish(&mut idx).unwrap();
    assert_eq!(o.index, 42);
    assert_eq!(e.index, 43);
}
