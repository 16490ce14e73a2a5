use bentoml::error::Error;
use bentoml::stream::{decode_chunk, JsonDecoder, JsonOutput, JsonStop, LineDecoder, LineOutput};
use serde_json::Value;

/// Feeds `chunks` to a line decoder and collects everything it hands out.
fn lines(chunks: &[&[u8]]) -> Vec<Result<String, String>> {
    let mut dec = LineDecoder::new();
    let mut out = Vec::new();
    let mut next = 0;
    loop {
        match dec.next_output() {
            LineOutput::Line(l) => out.push(Ok(l)),
            LineOutput::Failed(e) => out.push(Err(format!("{e:?}"))),
            LineOutput::Finished => return out,
            LineOutput::NeedInput => {
                if next < chunks.len() {
                    dec.push_chunk(chunks[next]);
                    next += 1;
                } else {
                    dec.end_of_input();
                }
            }
        }
    }
}

fn ok(v: &[&str]) -> Vec<Result<String, String>> {
    v.iter().map(|s| Ok(s.to_string())).collect()
}

#[test]
fn lines_are_reassembled_across_chunks() {
    assert_eq!(
        lines(&[b"{\"a\":1}\n{\"b\"", b":2}\r\n", b"tail"]),
        ok(&["{\"a\":1}", "{\"b\":2}", "tail"])
    );
}

#[test]
fn lines_do_not_depend_on_chunking() {
    let whole: &[u8] = b"one\r\ntwo\n\nthree\nfour";
    let expected = ok(&["one", "two", "", "three", "four"]);
    assert_eq!(lines(&[whole]), expected);
    let bytes: Vec<&[u8]> = whole.chunks(1).collect();
    assert_eq!(lines(&bytes), expected);
    assert_eq!(lines(&[&whole[..4], &whole[4..9], &whole[9..]]), expected);
}

#[test]
fn a_final_line_keeps_its_carriage_return() {
    assert_eq!(lines(&[b"a\nb\r"]), ok(&["a", "b\r"]));
}

#[test]
fn an_empty_stream_has_no_lines() {
    assert_eq!(lines(&[]), ok(&[]));
    assert_eq!(lines(&[b"", b""]), ok(&[]));
}

#[test]
fn an_invalid_utf8_line_is_an_error() {
    // The invalid line becomes an error in its place; the lines around it are
    // split as usual.
    let out = lines(&[b"ok\n\xff\nnext\n"]);
    assert_eq!(out.len(), 3);
    assert_eq!(out[0], Ok("ok".to_string()));
    assert!(out[1].as_ref().unwrap_err().contains("invalid utf-8 line"));
    assert_eq!(out[2], Ok("next".to_string()));
    let split = lines(&[b"ok\n\xff", b"\nne", b"xt\n"]);
    assert_eq!(split.len(), 3);
    assert_eq!(split[0], Ok("ok".to_string()));
    assert!(split[1].is_err());
    assert_eq!(split[2], Ok("next".to_string()));
}

#[test]
fn chunks_decode_as_text() {
    assert_eq!(decode_chunk("héllo".as_bytes().to_vec()).unwrap(), "héllo");
    match decode_chunk(vec![0xe2, 0x82]) {
        Err(Error::Decode { message, source: Some(_) }) => assert_eq!(message, "invalid utf-8 chunk"),
        other => panic!("unexpected {other:?}"),
    }
}

/// Scans the decoder's buffer for complete JSON values, as a streaming reader does.
fn scan(dec: &mut JsonDecoder<Value>) {
    let buf = dec.buffer().to_vec();
    let mut iter = serde_json::Deserializer::from_slice(&buf).into_iter::<Value>();
    let mut values = Vec::new();
    let stop = loop {
        match iter.next() {
            Some(Ok(v)) => values.push(v),
            Some(Err(e)) if e.is_eof() => break JsonStop::Incomplete,
            Some(Err(e)) => break JsonStop::Invalid(e.to_string()),
            None => break JsonStop::Exhausted,
        }
    };
    dec.apply_scan(values, stop, iter.byte_offset());
}

fn json(chunks: &[&[u8]]) -> Vec<Result<Value, String>> {
    let mut dec = JsonDecoder::new();
    let mut out = Vec::new();
    let mut next = 0;
    loop {
        match dec.next_output() {
            JsonOutput::Item(Ok(v)) => out.push(Ok(v)),
            JsonOutput::Item(Err(e)) => out.push(Err(format!("{e:?}"))),
            JsonOutput::Finished => return out,
            JsonOutput::NeedInput => {
                if next < chunks.len() {
                    dec.push_chunk(chunks[next]);
                    scan(&mut dec);
                    next += 1;
                } else {
                    dec.end_of_input();
                }
            }
        }
    }
}

#[test]
fn parses_concatenated_objects_split_across_chunks() {
    // BentoML concatenates objects with no delimiter; the middle object is split
    // across the chunk boundary, so the buffer must reassemble it.
    let got: Vec<u64> = json(&[br#"{"i":0}{"i"#, br#"":1}{"i":2}"#])
        .into_iter()
        .map(|r| r.unwrap()["i"].as_u64().unwrap())
        .collect();
    assert_eq!(got, vec![0, 1, 2]);
}

#[test]
fn trailing_incomplete_object_is_an_error() {
    // The first object completes and is yielded; the dangling `{"i":` left at
    // EOF surfaces as a decode error.
    let out = json(&[br#"{"i":7}{"i":"#]);
    assert_eq!(out[0].as_ref().unwrap()["i"], 7);
    assert!(out[1].as_ref().unwrap_err().contains("trailing incomplete json value"));
    assert_eq!(out.len(), 2);
}

#[test]
fn trailing_whitespace_is_not_a_value() {
    let out = json(&[b"1 2 ", b"\n\t"]);
    assert_eq!(out.len(), 2);
    assert_eq!(out[0].as_ref().unwrap(), &Value::from(1));
    assert_eq!(out[1].as_ref().unwrap(), &Value::from(2));
}

#[test]
fn a_malformed_value_is_an_error() {
    let mut dec: JsonDecoder<Value> = JsonDecoder::new();
    dec.push_chunk(b"{\"a\":1}]");
    scan(&mut dec);
    match dec.next_output() {
        JsonOutput::Item(Ok(v)) => assert_eq!(v["a"], 1),
        _ => panic!("expected a value"),
    }
    match dec.next_output() {
        JsonOutput::Item(Err(Error::Decode { message, source: Some(_) })) => {
            assert_eq!(message, "invalid json value")
        }
        _ => panic!("expected an error"),
    }
    // There is no reliable point to resume from: the rest of the buffer is dropped.
    assert!(dec.buffer().is_empty());
}

#[test]
fn a_malformed_value_is_reported_once() {
    let mut dec: JsonDecoder<Value> = JsonDecoder::new();
    dec.push_chunk(br#"{"i":x}{"i":1}"#);
    scan(&mut dec);
    assert!(dec.buffer().is_empty());
    match dec.next_output() {
        JsonOutput::Item(Err(Error::Decode { message, .. })) => assert_eq!(message, "invalid json value"),
        _ => panic!("expected an error"),
    }
    assert!(matches!(dec.next_output(), JsonOutput::NeedInput));
    let out = json(&[br#"{"i":x}{"i":1}"#, br#"{"i":2}"#]);
    assert_eq!(out.len(), 2);
    assert!(out[0].as_ref().unwrap_err().contains("invalid json value"));
    assert_eq!(out[1].as_ref().unwrap()["i"], 2);
}
