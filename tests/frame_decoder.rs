use cuuri::frame::{decode_line, Frame, FrameDecoder};
use cuuri::json::read_payload;

fn delta_line(content: &str) -> String {
    format!(
        "data: {{\"id\":\"x\",\"choices\":[{{\"index\":0,\"delta\":{{\"content\":\"{}\"}}}}]}}\n",
        content
    )
}

fn feed_all(chunks: &[&[u8]]) -> Vec<Frame> {
    let mut decoder = FrameDecoder::new();
    let mut out = Vec::new();
    for c in chunks {
        out.extend(decoder.feed(c));
    }
    out
}

fn describe(frames: &[Frame]) -> Vec<String> {
    frames
        .iter()
        .map(|f| match f {
            Frame::Delta(s) => format!("delta:{}", s),
            Frame::Done => "done".to_string(),
            Frame::Unparseable => "unparseable".to_string(),
        })
        .collect()
}

#[test]
fn payload_with_content_is_read() {
    let r = read_payload(b"{\"choices\":[{\"delta\":{\"content\":\"Hi\"}}]}");
    assert_eq!(r, Some(Some("Hi".to_string())));
}

#[test]
fn payload_without_content_is_a_no_op() {
    let r = read_payload(b"{\"choices\":[{\"delta\":{\"role\":\"assistant\"}}]}");
    assert_eq!(r, Some(None));
    let r = read_payload(b"{\"choices\":[{\"delta\":{},\"finish_reason\":\"stop\"}]}");
    assert_eq!(r, Some(None));
    let r = read_payload(b"{\"choices\":[]}");
    assert_eq!(r, Some(None));
    let r = read_payload(b"{\"choices\":[{\"delta\":{\"content\":null}}]}");
    assert_eq!(r, Some(None));
}

#[test]
fn payload_reads_only_the_first_choice() {
    let r = read_payload(
        b"{\"choices\":[{\"delta\":{\"content\":\"a\"}},{\"delta\":{\"content\":\"b\"}}]}",
    );
    assert_eq!(r, Some(Some("a".to_string())));
}

#[test]
fn malformed_payload_is_not_json() {
    assert_eq!(read_payload(b"{\"choices\":"), None);
    assert_eq!(read_payload(b"not json"), None);
}

#[test]
fn line_kinds() {
    assert!(matches!(decode_line(b"data: [DONE]"), Some(Frame::Done)));
    assert!(matches!(decode_line(b"  data: [DONE]\r"), Some(Frame::Done)));
    assert!(matches!(decode_line(b"data: {oops"), Some(Frame::Unparseable)));
    assert!(decode_line(b"").is_none());
    assert!(decode_line(b" \t\r").is_none());
    let line = delta_line("x");
    match decode_line(line.trim_end().as_bytes()) {
        Some(Frame::Delta(s)) => assert_eq!(s, "x"),
        _ => panic!("expected a delta"),
    }
}

#[test]
fn line_without_prefix_is_still_parsed() {
    match decode_line(b"{\"choices\":[{\"delta\":{\"content\":\"raw\"}}]}") {
        Some(Frame::Delta(s)) => assert_eq!(s, "raw"),
        _ => panic!("expected a delta"),
    }
}

#[test]
fn sentinel_split_at_every_offset_yields_one_done() {
    let line = b"data: [DONE]\n";
    for k in 0..=line.len() {
        let frames = feed_all(&[&line[..k], &line[k..]]);
        assert_eq!(describe(&frames), vec!["done".to_string()], "split at {}", k);
    }
}

#[test]
fn segmentation_does_not_change_frames() {
    let mut stream = String::new();
    stream.push_str(&delta_line("Hel"));
    stream.push_str("\n");
    stream.push_str(&delta_line("lo"));
    stream.push_str("data: {broken\n");
    stream.push_str(&delta_line("!"));
    stream.push_str("data: [DONE]\n");
    let bytes = stream.as_bytes();
    let whole = describe(&feed_all(&[bytes]));
    assert_eq!(
        whole,
        vec!["delta:Hel", "delta:lo", "unparseable", "delta:!", "done"]
    );
    for a in 0..=bytes.len() {
        for b in (a..=bytes.len()).step_by(7) {
            let parts = describe(&feed_all(&[&bytes[..a], &bytes[a..b], &bytes[b..]]));
            assert_eq!(parts, whole, "cut at {} and {}", a, b);
        }
    }
    let singles: Vec<&[u8]> = bytes.chunks(1).collect();
    assert_eq!(describe(&feed_all(&singles)), whole);
}

#[test]
fn malformed_line_does_not_stop_decoding() {
    let mut stream = String::from("data: {\"choices\": [\n");
    stream.push_str(&delta_line("after"));
    let frames = describe(&feed_all(&[stream.as_bytes()]));
    assert_eq!(frames, vec!["unparseable", "delta:after"]);
}

#[test]
fn multibyte_character_split_across_chunks() {
    let line = delta_line("héllo ✓");
    let bytes = line.as_bytes();
    let pos = line.find('✓').unwrap() + 1;
    let frames = describe(&feed_all(&[&bytes[..pos], &bytes[pos..]]));
    assert_eq!(frames, vec!["delta:héllo ✓"]);
}

#[test]
fn nothing_after_done_is_decoded() {
    let mut stream = String::from("data: [DONE]\n");
    stream.push_str(&delta_line("late"));
    let mut decoder = FrameDecoder::new();
    let frames = describe(&decoder.feed(stream.as_bytes()));
    assert_eq!(frames, vec!["done"]);
    assert!(decoder.is_done());
    assert!(decoder.feed(delta_line("later").as_bytes()).is_empty());
}

#[test]
fn partial_line_is_held_until_terminated() {
    let mut decoder = FrameDecoder::new();
    let line = delta_line("wait");
    let bytes = line.as_bytes();
    assert!(decoder.feed(&bytes[..bytes.len() - 1]).is_empty());
    let frames = describe(&decoder.feed(b"\n"));
    assert_eq!(frames, vec!["delta:wait"]);
}
