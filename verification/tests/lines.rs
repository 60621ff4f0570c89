use update_store_dump::lines::{frame_line, split_lines, NEWLINE};

#[test]
fn newline_is_line_feed() {
    assert_eq!(NEWLINE, b'\n');
}

#[test]
fn a_framed_line_ends_in_a_newline() {
    assert_eq!(frame_line(b"{\"a\":1}".to_vec()), b"{\"a\":1}\n".to_vec());
    assert_eq!(frame_line(Vec::new()), b"\n".to_vec());
}

#[test]
fn an_empty_file_has_no_line() {
    assert_eq!(split_lines(&Vec::new()), Vec::<Vec<u8>>::new());
}

#[test]
fn lines_keep_their_newline() {
    let data = b"one\ntwo\nthree\n".to_vec();
    assert_eq!(
        split_lines(&data),
        vec![b"one\n".to_vec(), b"two\n".to_vec(), b"three\n".to_vec()]
    );
}

#[test]
fn the_last_line_may_lack_its_newline() {
    let data = b"one\ntwo".to_vec();
    assert_eq!(split_lines(&data), vec![b"one\n".to_vec(), b"two".to_vec()]);
}

#[test]
fn empty_lines_are_lines() {
    let data = b"\n\nx\n\n".to_vec();
    assert_eq!(
        split_lines(&data),
        vec![b"\n".to_vec(), b"\n".to_vec(), b"x\n".to_vec(), b"\n".to_vec()]
    );
}

#[test]
fn lines_give_the_file_back() {
    let data = b"{\"k\":\"v\"}\n{}\nrest".to_vec();
    let joined: Vec<u8> = split_lines(&data).into_iter().flatten().collect();
    assert_eq!(joined, data);
}

#[test]
fn what_is_framed_is_read_back() {
    let payloads = vec![b"{\"n\":1}".to_vec(), b"{\"n\":2}".to_vec(), b"".to_vec()];
    let mut data: Vec<u8> = Vec::new();
    for payload in &payloads {
        data.extend(frame_line(payload.clone()));
    }
    let lines = split_lines(&data);
    assert_eq!(lines.len(), 3);
    for (line, payload) in lines.iter().zip(&payloads) {
        assert_eq!(line, &frame_line(payload.clone()));
    }
}
