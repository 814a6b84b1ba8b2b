use ndjson_ingest::aggregate::{Aggregator, PROGRESS_INTERVAL};
use ndjson_ingest::lines::{LineSplitter, NEWLINE};
use ndjson_ingest::pipeline::Pipeline;
use ndjson_ingest::record::parse;

fn split_all(chunks: &[&[u8]]) -> Vec<Vec<u8>> {
    let mut splitter = LineSplitter::new();
    let mut lines = Vec::new();
    for chunk in chunks {
        let mut pos = 0;
        while pos < chunk.len() {
            let (next, line) = splitter.next_line(chunk, pos);
            assert!(next > pos);
            lines.extend(line);
            pos = next;
        }
    }
    lines.extend(splitter.finish());
    lines
}

fn count(chunks: &[&[u8]], count_failed: bool) -> (u64, Vec<u64>) {
    let mut pipeline = Pipeline::new(count_failed);
    let mut reports = Vec::new();
    for chunk in chunks {
        assert!(pipeline.has_room_for(chunk));
        reports.extend(pipeline.on_chunk(chunk));
    }
    let (total, last) = pipeline.finish();
    reports.extend(last);
    (total, reports)
}

#[test]
fn newline_is_line_feed() {
    assert_eq!(NEWLINE, b'\n');
}

#[test]
fn splitter_strips_terminators() {
    let lines = split_all(&[b"ab\ncd\n"]);
    assert_eq!(lines, vec![b"ab".to_vec(), b"cd".to_vec()]);
}

#[test]
fn splitter_emits_trailing_partial_line() {
    let lines = split_all(&[b"ab\ncd"]);
    assert_eq!(lines, vec![b"ab".to_vec(), b"cd".to_vec()]);
}

#[test]
fn splitter_emits_empty_lines() {
    let lines = split_all(&[b"a\n\n\nb\n"]);
    assert_eq!(lines, vec![b"a".to_vec(), Vec::new(), Vec::new(), b"b".to_vec()]);
}

#[test]
fn splitter_keeps_carriage_return() {
    let lines = split_all(&[b"a\r\nb\r\n"]);
    assert_eq!(lines, vec![b"a\r".to_vec(), b"b\r".to_vec()]);
}

#[test]
fn splitter_joins_lines_across_chunks() {
    let lines = split_all(&[b"{\"a\"", b":", b"1}\n{\"b", b"\":2}", b"\n"]);
    assert_eq!(lines, vec![b"{\"a\":1}".to_vec(), b"{\"b\":2}".to_vec()]);
}

#[test]
fn splitter_result_is_independent_of_chunking() {
    let whole: &[u8] = b"one\ntwo\n\nthree\nfour";
    let expected = split_all(&[whole]);
    for cut in 0..=whole.len() {
        let (left, right) = whole.split_at(cut);
        assert_eq!(split_all(&[left, right]), expected);
    }
    let bytes: Vec<&[u8]> = whole.chunks(1).collect();
    assert_eq!(split_all(&bytes), expected);
}

#[test]
fn splitter_of_nothing_has_no_line() {
    assert_eq!(split_all(&[]), Vec::<Vec<u8>>::new());
    assert_eq!(split_all(&[b""]), Vec::<Vec<u8>>::new());
}

#[test]
fn splitter_next_line_stops_after_terminator() {
    let mut splitter = LineSplitter::new();
    let chunk: &[u8] = b"ab\ncd\nef";
    let (pos, line) = splitter.next_line(chunk, 0);
    assert_eq!((pos, line), (3, Some(b"ab".to_vec())));
    let (pos, line) = splitter.next_line(chunk, pos);
    assert_eq!((pos, line), (6, Some(b"cd".to_vec())));
    let (pos, line) = splitter.next_line(chunk, pos);
    assert_eq!((pos, line), (8, None));
    assert_eq!(splitter.buffered_len(), 2);
    assert_eq!(splitter.finish(), Some(b"ef".to_vec()));
}

#[test]
fn splitter_buffers_only_the_current_line() {
    let mut splitter = LineSplitter::new();
    let long = vec![b'x'; 5000];
    let (_, line) = splitter.next_line(&long, 0);
    assert_eq!(line, None);
    assert_eq!(splitter.buffered_len(), 5000);
    let (_, line) = splitter.next_line(b"\n", 0);
    assert_eq!(line.map(|l| l.len()), Some(5000));
    assert_eq!(splitter.buffered_len(), 0);
    for _ in 0..1000 {
        let (pos, line) = splitter.next_line(b"{}\n", 0);
        assert_eq!((pos, line), (3, Some(b"{}".to_vec())));
        assert_eq!(splitter.buffered_len(), 0);
    }
}

#[test]
fn parse_accepts_json_values() {
    assert!(parse(b"{\"a\":1}").is_ok());
    assert!(parse(b"[1, 2, 3]").is_ok());
    assert!(parse(b"null").is_ok());
    assert!(parse(b"  \"text\"  ").is_ok());
    assert!(parse(b"{\"a\":1}\r").is_ok());
}

#[test]
fn parse_rejects_what_is_not_json() {
    assert!(parse(b"not-json").is_err());
    assert!(parse(b"").is_err());
    assert!(parse(b"{\"a\":1").is_err());
    assert!(parse(b"{\"a\":1} {\"b\":2}").is_err());
    assert!(parse(&[b'"', 0xff, b'"']).is_err());
}

#[test]
fn parse_hands_out_the_value() {
    let record = parse(b"{\"a\":[1,true]}").ok().unwrap();
    let value = record.into_value();
    assert_eq!(value["a"][0], serde_json::Value::from(1));
    assert_eq!(value["a"][1], serde_json::Value::Bool(true));
}

#[test]
fn aggregator_counts_by_policy() {
    let mut all = Aggregator::new(true);
    let mut good = Aggregator::new(false);
    for parsed in [true, false, true, false, false] {
        assert_eq!(all.record(parsed), None);
        assert_eq!(good.record(parsed), None);
    }
    assert_eq!(all.record_count(), 5);
    assert_eq!(good.record_count(), 2);
    assert!(all.policy());
    assert!(!good.policy());
}

#[test]
fn aggregator_reports_every_interval() {
    assert_eq!(PROGRESS_INTERVAL, 1000);
    let mut counter = Aggregator::new(false);
    let mut reports = Vec::new();
    for i in 0..2500u64 {
        let before = counter.record_count();
        let report = counter.record(true);
        assert_eq!(counter.record_count(), before + 1);
        assert_eq!(report.is_some(), (i + 1) % 1000 == 0);
        reports.extend(report);
        assert_eq!(counter.record(false), None);
    }
    assert_eq!(reports, vec![1000, 2000]);
}

#[test]
fn pipeline_counts_mixed_lines_by_policy() {
    let content: &[u8] = b"{\"a\":1}\n{\"b\":2}\nnot-json\n{\"c\":3}\n";
    assert_eq!(count(&[content], true), (4, vec![]));
    assert_eq!(count(&[content], false), (3, vec![]));
}

#[test]
fn pipeline_counts_a_single_unterminated_line() {
    assert_eq!(count(&[b"{\"a\":1}"], true), (1, vec![]));
    assert_eq!(count(&[b"{\"a\":1}"], false), (1, vec![]));
}

#[test]
fn pipeline_counts_nothing_in_empty_content() {
    assert_eq!(count(&[], true), (0, vec![]));
    assert_eq!(count(&[b""], false), (0, vec![]));
}

#[test]
fn pipeline_counts_empty_lines_as_failed_parses() {
    assert_eq!(count(&[b"{}\n\n{}\n"], true), (3, vec![]));
    assert_eq!(count(&[b"{}\n\n{}\n"], false), (2, vec![]));
}

#[test]
fn pipeline_counts_every_well_formed_line() {
    let mut content = Vec::new();
    for i in 0..137 {
        content.extend_from_slice(format!("{{\"n\":{}}}\n", i).as_bytes());
    }
    assert_eq!(count(&[&content], true).0, 137);
    assert_eq!(count(&[&content], false).0, 137);
}

#[test]
fn pipeline_count_is_independent_of_chunking() {
    let content: &[u8] = b"{\"a\":1}\n{\"b\":2}\nnot-json\n\n{\"c\":3}";
    for policy in [true, false] {
        let expected = count(&[content], policy);
        assert_eq!(expected.0, if policy { 5 } else { 3 });
        for size in 1..content.len() {
            let chunks: Vec<&[u8]> = content.chunks(size).collect();
            assert_eq!(count(&chunks, policy), expected);
        }
        assert_eq!(count(&[content], policy), expected);
    }
}

#[test]
fn pipeline_reports_progress_in_order() {
    let mut content = Vec::new();
    for _ in 0..3001 {
        content.extend_from_slice(b"{}\n");
    }
    assert_eq!(count(&[&content], true), (3001, vec![1000, 2000, 3000]));
    let chunks: Vec<&[u8]> = content.chunks(7).collect();
    assert_eq!(count(&chunks, false), (3001, vec![1000, 2000, 3000]));
}

#[test]
fn pipeline_reports_progress_made_by_the_last_line() {
    let mut content = Vec::new();
    for _ in 0..999 {
        content.extend_from_slice(b"1\n");
    }
    content.extend_from_slice(b"2");
    assert_eq!(count(&[&content], false), (1000, vec![1000]));
}

#[test]
fn pipeline_holds_only_the_current_line() {
    let mut pipeline = Pipeline::new(true);
    let long = vec![b'7'; 4096];
    assert_eq!(pipeline.on_chunk(&long), Vec::<u64>::new());
    assert_eq!(pipeline.buffered_len(), 4096);
    assert_eq!(pipeline.record_count(), 0);
    pipeline.on_chunk(b"\n");
    assert_eq!(pipeline.buffered_len(), 0);
    for _ in 0..500 {
        pipeline.on_chunk(b"{}\n{}\n[");
        assert_eq!(pipeline.buffered_len(), 1);
        pipeline.on_chunk(b"]\n");
        assert_eq!(pipeline.buffered_len(), 0);
    }
    assert_eq!(pipeline.record_count(), 1501);
}
